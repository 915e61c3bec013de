use crate::card::{Card, DisplayCard};
use crate::cards::{cards_of_rank, cards_of_suit, with_rank, with_suit, Cards, SortCards};
use crate::error::CardError;
use crate::handy::{
    lemma_remove_first_absent, lemma_remove_first_at, strip, strip_each, Handy,
};
use crate::rank::Rank;
use crate::suit::Suit;
use vstd::prelude::*;
use vstd::string::*;

verus! {

/// An ordered area of cards of any type, the storage of a hand.
#[derive(Clone)]
pub struct Area<T> {
    /// The cards, in order.
    pub cards: Vec<T>,
}

impl<T> Default for Area<T> {
    fn default() -> (r: Area<T>)
        ensures
            r.cards@ == Seq::<T>::empty(),
    {
        Area { cards: Vec::new() }
    }
}

/// A hand of standard cards: zero or more cards that a player holds, in the
/// order they were added unless sorted or shuffled.
#[derive(Clone)]
pub struct Hand(pub Area<Card>);

impl Default for Hand {
    fn default() -> (r: Hand)
        ensures
            r.0.cards@ == Seq::<Card>::empty(),
    {
        Hand(Area { cards: Vec::new() })
    }
}

impl Cards<Card> for Hand {
    open spec fn card_seq(&self) -> Seq<Card> {
        self.0.cards@
    }

    open spec fn same_apart_from_cards(&self, other: &Self) -> bool {
        true
    }

    fn cards(&self) -> (r: &[Card]) {
        self.0.cards.as_slice()
    }

    fn mut_cards(&mut self) -> (r: &mut [Card]) {
        self.0.cards.as_mut_slice()
    }
}

impl SortCards for Hand {}

/// Returns `cards` without any card equal to `c`, the rest in order.
fn without(cards: &Vec<Card>, c: Card) -> (r: Vec<Card>)
    ensures
        r@ == strip(cards@, c),
{
    let mut r: Vec<Card> = Vec::new();
    let mut k: usize = 0;
    while k < cards.len()
        invariant
            k <= cards@.len(),
            r@ == strip(cards@.subrange(0, k as int), c),
        decreases cards@.len() - k,
    {
        assert(cards@.subrange(0, k + 1).drop_last() =~= cards@.subrange(0, k as int));
        if cards[k] != c {
            r.push(cards[k]);
        }
        k = k + 1;
    }
    assert(cards@.subrange(0, cards@.len() as int) =~= cards@);
    r
}

impl Handy<Card> for Hand {
    fn new() -> (r: Self) {
        Hand(Area { cards: Vec::new() })
    }

    fn from_cards(cards: &[Card]) -> (r: Self) {
        let mut v: Vec<Card> = Vec::new();
        let mut i: usize = 0;
        while i < cards.len()
            invariant
                i <= cards@.len(),
                v@ == cards@.subrange(0, i as int),
            decreases cards@.len() - i,
        {
            v.push(cards[i]);
            i = i + 1;
        }
        assert(v@ =~= cards@);
        Hand(Area { cards: v })
    }

    /// Makes a hand from card codes such as "AS"; fails with `InvalidFormat`
    /// if any code is not a card.
    fn from_strings(card_slice: &[&str]) -> (r: Result<Self, CardError>)
        ensures
            (forall|i: int|
                0 <= i < card_slice@.len() ==> (#[trigger] Card::decode(card_slice@[i]@)) is Some)
                ==> r is Ok && r->Ok_0.card_seq().len() == card_slice@.len() && forall|i: int|
                0 <= i < card_slice@.len() ==> #[trigger] r->Ok_0.card_seq()[i] == Card::decode(
                card_slice@[i]@,
            )->0,
            !(forall|i: int|
                0 <= i < card_slice@.len() ==> (#[trigger] Card::decode(card_slice@[i]@)) is Some)
                ==> r == Err::<Hand, CardError>(CardError::InvalidFormat),
    {
        let mut v: Vec<Card> = Vec::new();
        let mut i: usize = 0;
        while i < card_slice.len()
            invariant
                i <= card_slice@.len(),
                v@.len() == i,
                forall|j: int|
                    0 <= j < i ==> (#[trigger] Card::decode(card_slice@[j]@)) is Some && v@[j]
                        == Card::decode(card_slice@[j]@)->0,
            decreases card_slice@.len() - i,
        {
            match Card::from_str(card_slice[i]) {
                Ok(c) => v.push(c),
                Err(_) => {
                    return Err(CardError::InvalidFormat);
                },
            }
            i = i + 1;
        }
        Ok(Hand(Area { cards: v }))
    }

    fn push_card(&mut self, card: Card) {
        self.0.cards.push(card);
    }

    fn push_cards(&mut self, cards: &[Card])
        ensures
            final(self).card_seq() == old(self).card_seq() + cards@,
    {
        let n = self.0.cards.len();
        let mut i: usize = 0;
        while i < cards.len()
            invariant
                i <= cards@.len(),
                n == old(self).0.cards@.len(),
                self.0.cards@ == old(self).0.cards@ + cards@.subrange(0, i as int),
            decreases cards@.len() - i,
        {
            self.0.cards.push(cards[i]);
            i = i + 1;
            assert(self.0.cards@ =~= old(self).0.cards@ + cards@.subrange(0, i as int));
        }
        assert(self.0.cards@ =~= old(self).0.cards@ + cards@);
        assert(self.0.cards@.subrange(0, n as int) =~= old(self).0.cards@);
        assert(self.0.cards@.subrange(n as int, self.0.cards@.len() as int) =~= cards@);
    }

    fn push_hand(&mut self, other: &Self)
        ensures
            final(self).card_seq() == old(self).card_seq() + other.card_seq(),
    {
        self.push_cards(other.0.cards.as_slice());
    }

    fn clear(&mut self) {
        self.0.cards.clear();
    }

    fn remove(&mut self, index: usize) -> (r: Result<Card, CardError>) {
        if index < self.0.cards.len() {
            Ok(self.0.cards.remove(index))
        } else {
            Err(CardError::IndexOutOfRange)
        }
    }

    fn remove_all_cards(&mut self, cards: &[Card]) {
        let mut i: usize = 0;
        while i < cards.len()
            invariant
                i <= cards@.len(),
                self.0.cards@ == strip_each(old(self).0.cards@, cards@.subrange(0, i as int)),
            decreases cards@.len() - i,
        {
            assert(cards@.subrange(0, i + 1).drop_last() =~= cards@.subrange(0, i as int));
            let kept = without(&self.0.cards, cards[i]);
            self.0.cards = kept;
            i = i + 1;
        }
        assert(cards@.subrange(0, cards@.len() as int) =~= cards@);
    }

    fn remove_card(&mut self, card: &Card) -> (r: bool) {
        let mut i: usize = 0;
        while i < self.0.cards.len() && self.0.cards[i] != *card
            invariant
                i <= self.0.cards@.len(),
                self.0.cards@ == old(self).0.cards@,
                forall|j: int| 0 <= j < i ==> self.0.cards@[j] != *card,
            decreases self.0.cards@.len() - i,
        {
            i = i + 1;
        }
        if i < self.0.cards.len() {
            proof {
                lemma_remove_first_at(self.0.cards@, *card, i as int);
                assert(self.0.cards@[i as int] == *card);
            }
            let _ = self.0.cards.remove(i);
            true
        } else {
            proof {
                lemma_remove_first_absent(self.0.cards@, *card);
            }
            false
        }
    }
}

/// The codes of `s`, separated by commas, e.g. "AS,KD".
pub open spec fn joined_codes(s: Seq<Card>) -> Seq<char>
    decreases s.len(),
{
    if s.len() == 0 {
        Seq::empty()
    } else if s.len() == 1 {
        s[0].code()
    } else {
        joined_codes(s.drop_last()) + ","@ + s.last().code()
    }
}

impl<'a> std::ops::AddAssign<&'a Hand> for Hand {
    fn add_assign(&mut self, rhs: &'a Hand)
        ensures
            final(self).card_seq() == old(self).card_seq() + rhs.card_seq(),
    {
        self.push_hand(rhs);
    }
}

impl std::ops::AddAssign<Card> for Hand {
    fn add_assign(&mut self, rhs: Card)
        ensures
            final(self).card_seq() == old(self).card_seq().push(rhs),
    {
        self.push_card(rhs);
    }
}

impl Hand {
    /// Returns the codes of the cards separated by commas, e.g. "AS,KD".
    pub fn to_str(&self) -> (r: String)
        ensures
            r@ == joined_codes(self.card_seq()),
    {
        let cards = &self.0.cards;
        proof {
            reveal_strlit("");
        }
        let mut r = <String as StringExecFns>::from_str("");
        assert(r@ =~= Seq::<char>::empty());
        let mut i: usize = 0;
        while i < cards.len()
            invariant
                i <= cards@.len(),
                r@ == joined_codes(cards@.subrange(0, i as int)),
            decreases cards@.len() - i,
        {
            assert(cards@.subrange(0, i + 1).drop_last() =~= cards@.subrange(0, i as int));
            if i > 0 {
                r = r.concat(",");
            }
            let code = cards[i].to_str();
            r = r.concat(code.as_str());
            i = i + 1;
            assert(r@ =~= joined_codes(cards@.subrange(0, i as int)));
        }
        assert(cards@.subrange(0, cards@.len() as int) =~= cards@);
        r
    }

    /// Returns the cards of the given rank, in hand order.
    pub fn cards_of_rank(&self, rank: Rank) -> (r: Vec<Card>)
        ensures
            r@ == with_rank(self.card_seq(), rank),
    {
        cards_of_rank(self.0.cards.as_slice(), rank)
    }

    /// Returns the cards of the given suit, in hand order.
    pub fn cards_of_suit(&self, suit: Suit) -> (r: Vec<Card>)
        ensures
            r@ == with_suit(self.card_seq(), suit),
    {
        cards_of_suit(self.0.cards.as_slice(), suit)
    }
}

} // verus!
