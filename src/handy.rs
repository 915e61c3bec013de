use crate::cards::Cards;
use crate::error::CardError;
use vstd::prelude::*;

verus! {

/// `b` holds, position by position, clones of the elements of `a`.
pub open spec fn clones<C: Clone>(a: Seq<C>, b: Seq<C>) -> bool {
    a.len() == b.len() && forall|i: int| 0 <= i < a.len() ==> cloned::<C>(a[i], #[trigger] b[i])
}

/// `s` without its first element equal to `c` (`s` itself if there is none).
pub open spec fn remove_first<C>(s: Seq<C>, c: C) -> Seq<C>
    decreases s.len(),
{
    if s.len() == 0 {
        s
    } else if s[0] == c {
        s.drop_first()
    } else {
        seq![s[0]] + remove_first(s.drop_first(), c)
    }
}

/// `s` after removing, for each card of `cs` in turn, its first occurrence.
pub open spec fn remove_each<C>(s: Seq<C>, cs: Seq<C>) -> Seq<C>
    decreases cs.len(),
{
    if cs.len() == 0 {
        s
    } else {
        remove_first(remove_each(s, cs.drop_last()), cs.last())
    }
}

/// `s` without any element equal to `c`, the rest in order.
pub open spec fn strip<C>(s: Seq<C>, c: C) -> Seq<C>
    decreases s.len(),
{
    if s.len() == 0 {
        s
    } else if s.last() == c {
        strip(s.drop_last(), c)
    } else {
        strip(s.drop_last(), c).push(s.last())
    }
}

/// `s` without any element equal to a card of `cs`, the rest in order.
pub open spec fn strip_each<C>(s: Seq<C>, cs: Seq<C>) -> Seq<C>
    decreases cs.len(),
{
    if cs.len() == 0 {
        s
    } else {
        strip(strip_each(s, cs.drop_last()), cs.last())
    }
}

/// Removing the first occurrence of `c`, found at `i`, is removing position `i`.
pub proof fn lemma_remove_first_at<C>(s: Seq<C>, c: C, i: int)
    requires
        0 <= i < s.len(),
        s[i] == c,
        forall|j: int| 0 <= j < i ==> s[j] != c,
    ensures
        remove_first(s, c) == s.remove(i),
    decreases s.len(),
{
    if i == 0 {
        assert(s.remove(0) =~= s.drop_first());
    } else {
        lemma_remove_first_at(s.drop_first(), c, i - 1);
        assert(s.remove(i) =~= seq![s[0]] + s.drop_first().remove(i - 1));
    }
}

/// Removing a card that `s` does not hold leaves `s` as it is.
pub proof fn lemma_remove_first_absent<C>(s: Seq<C>, c: C)
    requires
        !s.contains(c),
    ensures
        remove_first(s, c) == s,
    decreases s.len(),
{
    if s.len() > 0 {
        if s[0] == c {
            assert(s.contains(c));
        }
        assert forall|k: int| 0 <= k < s.drop_first().len() implies s.drop_first()[k] != c by {
            if s.drop_first()[k] == c {
                assert(s[k + 1] == c);
                assert(s.contains(c));
            }
        }
        lemma_remove_first_absent(s.drop_first(), c);
        assert(seq![s[0]] + s.drop_first() =~= s);
    }
}

/// A hand: an ordered collection of cards that grows by pushing and shrinks by
/// removing, with no dealt or undealt part.
pub trait Handy<C: Clone>: Cards<C> {
    /// Creates an empty hand.
    fn new() -> (r: Self)
        ensures
            r.card_seq() == Seq::<C>::empty(),
    ;

    /// Makes a hand from the cards of another.
    fn from_hand(hand: &Self) -> (r: Self)
        ensures
            clones(hand.card_seq(), r.card_seq()),
    {
        Self::from_cards(hand.cards())
    }

    /// Makes a hand holding the given cards, in order.
    fn from_cards(cards: &[C]) -> (r: Self)
        ensures
            clones(cards@, r.card_seq()),
    ;

    /// Makes a hand from card codes; fails if any code is not a card.
    fn from_strings(card_slice: &[&str]) -> Result<Self, CardError>;

    /// Adds one card at the end.
    fn push_card(&mut self, card: C)
        ensures
            final(self).card_seq() == old(self).card_seq().push(card),
    ;

    /// Adds the given cards at the end, in order.
    fn push_cards(&mut self, cards: &[C])
        ensures
            final(self).card_seq().len() == old(self).card_seq().len() + cards@.len(),
            final(self).card_seq().subrange(0, old(self).card_seq().len() as int) == old(
                self,
            ).card_seq(),
            clones(
                cards@,
                final(self).card_seq().subrange(
                    old(self).card_seq().len() as int,
                    final(self).card_seq().len() as int,
                ),
            ),
    ;

    /// Adds the cards of another hand at the end, in order.
    fn push_hand(&mut self, other: &Self)
        ensures
            final(self).card_seq().len() == old(self).card_seq().len() + other.card_seq().len(),
            final(self).card_seq().subrange(0, old(self).card_seq().len() as int) == old(
                self,
            ).card_seq(),
            clones(
                other.card_seq(),
                final(self).card_seq().subrange(
                    old(self).card_seq().len() as int,
                    final(self).card_seq().len() as int,
                ),
            ),
    ;

    /// Returns the number of cards.
    fn len(&self) -> (r: usize)
        ensures
            r == self.card_seq().len(),
    {
        self.cards().len()
    }

    /// Removes every card.
    fn clear(&mut self)
        ensures
            final(self).card_seq() == Seq::<C>::empty(),
    ;

    /// Removes and returns the card at `index`, moving the later cards down;
    /// fails if there is no card at `index`.
    fn remove(&mut self, index: usize) -> (r: Result<C, CardError>)
        ensures
            index < old(self).card_seq().len() ==> r == Ok::<C, CardError>(
                old(self).card_seq()[index as int],
            ) && final(self).card_seq() == old(self).card_seq().remove(index as int),
            index >= old(self).card_seq().len() ==> r == Err::<C, CardError>(
                CardError::IndexOutOfRange,
            ) && final(self).card_seq() == old(self).card_seq(),
    ;

    /// For each of the given cards, removes its first occurrence, if any.
    fn remove_cards(&mut self, cards: &[C])
        ensures
            final(self).card_seq() == remove_each(old(self).card_seq(), cards@),
    {
        let mut i: usize = 0;
        while i < cards.len()
            invariant
                i <= cards@.len(),
                self.card_seq() == remove_each(old(self).card_seq(), cards@.subrange(0, i as int)),
            decreases cards@.len() - i,
        {
            assert(cards@.subrange(0, i + 1).drop_last() =~= cards@.subrange(0, i as int));
            let _ = self.remove_card(&cards[i]);
            i = i + 1;
        }
        assert(cards@.subrange(0, cards@.len() as int) =~= cards@);
    }

    /// Removes every occurrence of each of the given cards.
    fn remove_all_cards(&mut self, cards: &[C])
        ensures
            final(self).card_seq() == strip_each(old(self).card_seq(), cards@),
    ;

    /// Removes the first occurrence of `card`; returns whether there was one.
    fn remove_card(&mut self, card: &C) -> (r: bool)
        ensures
            r == old(self).card_seq().contains(*card),
            final(self).card_seq() == remove_first(old(self).card_seq(), *card),
    ;
}

} // verus!
