use crate::error::CardError;
use crate::handy::clones;
use crate::order::{compare, compare_usize};
use crate::rank::{Rank, RANK_COUNT};
use crate::suit::{Suit, SUIT_COUNT};
use std::cmp::Ordering;
use vstd::prelude::*;
use vstd::string::*;

verus! {

/// Number of cards in a standard deck.
pub const DECK_SIZE: usize = 52;

/// A card of the standard 52-card deck: a rank and a suit.
///
/// Cards order by rank and then by suit.
#[derive(Clone, Copy, Debug, PartialEq, Eq, Structural, Hash, PartialOrd, Ord)]
pub struct Card {
    /// The card's rank, e.g. Jack.
    pub rank: Rank,
    /// The card's suit, e.g. Hearts.
    pub suit: Suit,
}

/// The orders in which a collection of cards can be sorted.
#[derive(Clone, Copy, Debug, PartialEq, Eq, Structural)]
pub enum CardOrder {
    /// Ascending rank, ties broken by suit.
    RankThenSuit,
    /// Descending rank, ties broken by suit.
    DescRankThenSuit,
    /// Suit, ties broken by ascending rank.
    SuitThenRank,
    /// Suit, ties broken by descending rank.
    SuitThenDescRank,
}

/// Conversions between a card type and text.
pub trait DisplayCard: Sized {
    /// The short code of the card, e.g. "AS".
    fn to_str(&self) -> String;

    /// Reads a card from its short code.
    fn from_str(s: &str) -> Result<Self, CardError>;

    /// The English name of the card, e.g. "Ace of Spades".
    fn name(&self) -> String;
}

impl Card {
    /// The two-character code: rank character, then suit character.
    pub open spec fn code(self) -> Seq<char> {
        seq![self.rank.code(), self.suit.code()]
    }

    /// The card that a code denotes: two characters, rank then suit or suit then rank.
    pub open spec fn decode(s: Seq<char>) -> Option<Card> {
        if s.len() != 2 {
            None
        } else if Rank::decode(s[0]) is Some && Suit::decode(s[1]) is Some {
            Some(Card { rank: Rank::decode(s[0])->0, suit: Suit::decode(s[1])->0 })
        } else if Suit::decode(s[0]) is Some && Rank::decode(s[1]) is Some {
            Some(Card { rank: Rank::decode(s[1])->0, suit: Suit::decode(s[0])->0 })
        } else {
            None
        }
    }

    /// The English name, "<Rank> of <Suit>".
    pub open spec fn spec_name(self) -> Seq<char> {
        self.rank.spec_name() + " of "@ + self.suit.spec_name()
    }

    /// The card's index in the standard deck: 13 times the suit's index plus the rank's.
    pub open spec fn index(self) -> int {
        self.suit.index() * 13 + self.rank.index()
    }

    /// The standard deck: Spades Two to Ace, then Hearts, Diamonds and Clubs likewise.
    pub open spec fn standard() -> Seq<Card> {
        Seq::new(52, |i: int| Card { rank: Rank::at(i % 13), suit: Suit::at(i / 13) })
    }

    /// The key that a sort order compares; no two distinct cards share a key.
    pub open spec fn sort_key(self, order: CardOrder) -> int {
        match order {
            CardOrder::RankThenSuit => self.rank.index() * 4 + self.suit.index(),
            CardOrder::DescRankThenSuit => (12 - self.rank.index()) * 4 + self.suit.index(),
            CardOrder::SuitThenRank => self.suit.index() * 13 + self.rank.index(),
            CardOrder::SuitThenDescRank => self.suit.index() * 13 + (12 - self.rank.index()),
        }
    }

    /// Creates a card with the given rank and suit.
    pub fn new(rank: Rank, suit: Suit) -> (r: Card)
        ensures
            r.rank == rank,
            r.suit == suit,
    {
        Card { rank, suit }
    }

    /// Returns the key that `order` sorts by.
    pub fn key(&self, order: CardOrder) -> (r: usize)
        ensures
            r == self.sort_key(order),
    {
        let r = self.rank.ordinal();
        let s = self.suit.ordinal();
        match order {
            CardOrder::RankThenSuit => r * 4 + s,
            CardOrder::DescRankThenSuit => (12 - r) * 4 + s,
            CardOrder::SuitThenRank => s * 13 + r,
            CardOrder::SuitThenDescRank => s * 13 + (12 - r),
        }
    }

    /// Compares by rank only.
    pub fn cmp_rank(&self, other: &Card) -> (r: Ordering)
        ensures
            r == compare(self.rank.index(), other.rank.index()),
    {
        compare_usize(self.rank.ordinal(), other.rank.ordinal())
    }

    /// Compares by rank and then suit.
    pub fn cmp_rank_then_suit(&self, other: &Card) -> (r: Ordering)
        ensures
            r == compare(
                self.sort_key(CardOrder::RankThenSuit),
                other.sort_key(CardOrder::RankThenSuit),
            ),
    {
        compare_usize(self.key(CardOrder::RankThenSuit), other.key(CardOrder::RankThenSuit))
    }

    /// Compares by descending rank and then suit.
    pub fn cmp_desc_rank_then_suit(&self, other: &Card) -> (r: Ordering)
        ensures
            r == compare(
                self.sort_key(CardOrder::DescRankThenSuit),
                other.sort_key(CardOrder::DescRankThenSuit),
            ),
    {
        compare_usize(
            self.key(CardOrder::DescRankThenSuit),
            other.key(CardOrder::DescRankThenSuit),
        )
    }

    /// Compares by suit and then rank.
    pub fn cmp_suit_then_rank(&self, other: &Card) -> (r: Ordering)
        ensures
            r == compare(
                self.sort_key(CardOrder::SuitThenRank),
                other.sort_key(CardOrder::SuitThenRank),
            ),
    {
        compare_usize(self.key(CardOrder::SuitThenRank), other.key(CardOrder::SuitThenRank))
    }

    /// Compares by suit and then descending rank.
    pub fn cmp_suit_then_desc_rank(&self, other: &Card) -> (r: Ordering)
        ensures
            r == compare(
                self.sort_key(CardOrder::SuitThenDescRank),
                other.sort_key(CardOrder::SuitThenDescRank),
            ),
    {
        compare_usize(
            self.key(CardOrder::SuitThenDescRank),
            other.key(CardOrder::SuitThenDescRank),
        )
    }

    /// Returns the card's index in the standard deck, a number in 0..52.
    pub fn ordinal(&self) -> (r: usize)
        ensures
            r == self.index(),
    {
        self.suit.ordinal() * 13 + self.rank.ordinal()
    }

    /// Tests if the card is a Heart.
    pub fn is_hearts(&self) -> (r: bool)
        ensures
            r == (self.suit == Suit::Hearts),
    {
        self.suit == Suit::Hearts
    }

    /// Tests if the card is a Club.
    pub fn is_clubs(&self) -> (r: bool)
        ensures
            r == (self.suit == Suit::Clubs),
    {
        self.suit == Suit::Clubs
    }

    /// Tests if the card is a Spade.
    pub fn is_spades(&self) -> (r: bool)
        ensures
            r == (self.suit == Suit::Spades),
    {
        self.suit == Suit::Spades
    }

    /// Tests if the card is a Diamond.
    pub fn is_diamonds(&self) -> (r: bool)
        ensures
            r == (self.suit == Suit::Diamonds),
    {
        self.suit == Suit::Diamonds
    }

    /// Returns the 52 cards of a standard deck in their standard order.
    pub fn all_cards() -> (r: Vec<Card>)
        ensures
            r@ == Card::standard(),
    {
        let mut r: Vec<Card> = Vec::new();
        let mut i: usize = 0;
        while i < DECK_SIZE
            invariant
                i <= DECK_SIZE,
                r@.len() == i,
                forall|j: int| 0 <= j < i ==> #[trigger] r@[j] == Card::standard()[j],
            decreases DECK_SIZE - i,
        {
            assert(i % 13 < RANK_COUNT && i / 13 < SUIT_COUNT);
            r.push(Card::new(Rank::from_ordinal(i % 13), Suit::from_ordinal(i / 13)));
            i = i + 1;
        }
        assert(r@ =~= Card::standard());
        r
    }

    /// Returns the 52 cards of a standard deck, in the order they are walked.
    pub fn iterator() -> (r: Vec<Card>)
        ensures
            r@ == Card::standard(),
    {
        Card::all_cards()
    }
}

impl DisplayCard for Card {
    /// Turns the card into its code, rank then suit, e.g. "AS".
    fn to_str(&self) -> (r: String)
        ensures
            r@ == self.code(),
    {
        let s = <String as StringExecFns>::from_str(self.rank.code_str());
        let r = s.concat(self.suit.code_str());
        assert(r@ =~= self.code());
        r
    }

    /// Reads a card from a two-character code, rank then suit or suit then rank,
    /// in either case, e.g. "AS" or "sa" for the Ace of Spades.
    fn from_str(s: &str) -> (r: Result<Card, CardError>)
        ensures
            match Card::decode(s@) {
                Some(c) => r == Ok::<Card, CardError>(c),
                None => r == Err::<Card, CardError>(CardError::InvalidFormat),
            },
    {
        if s.unicode_len() != 2 {
            return Err(CardError::InvalidFormat);
        }
        let c1 = s.get_char(0);
        let c2 = s.get_char(1);
        if let Ok(rank) = Rank::from_char(c1) {
            if let Ok(suit) = Suit::from_char(c2) {
                return Ok(Card::new(rank, suit));
            }
        }
        if let Ok(suit) = Suit::from_char(c1) {
            if let Ok(rank) = Rank::from_char(c2) {
                return Ok(Card::new(rank, suit));
            }
        }
        Err(CardError::InvalidFormat)
    }

    /// Returns the English name of the card, e.g. "Ace of Spades".
    fn name(&self) -> (r: String)
        ensures
            r@ == self.spec_name(),
    {
        let s = <String as StringExecFns>::from_str(self.rank.to_str());
        let s = s.concat(" of ");
        s.concat(self.suit.to_str())
    }
}

/// Decoding the code of any card gives back that card.
pub proof fn lemma_code_round_trip(c: Card)
    ensures
        Card::decode(c.code()) == Some(c),
{
}

/// Splitting an index of the standard deck into suit and rank positions.
proof fn lemma_index_split(s: int, r: int)
    requires
        0 <= s < 4,
        0 <= r < 13,
    ensures
        (s * 13 + r) / 13 == s,
        (s * 13 + r) % 13 == r,
{
}

/// The standard deck holds 52 distinct cards, and the ordinal is a bijection
/// from cards onto 0..52: the card at position `i` has ordinal `i`, and every
/// card stands at the position its ordinal gives.
pub proof fn lemma_standard_deck()
    ensures
        Card::standard().len() == 52,
        Card::standard().no_duplicates(),
        forall|i: int| 0 <= i < 52 ==> #[trigger] Card::standard()[i].index() == i,
        forall|c: Card| 0 <= #[trigger] c.index() < 52 && Card::standard()[c.index()] == c,
{
    assert forall|i: int| 0 <= i < 52 implies #[trigger] Card::standard()[i].index() == i by {
        let s = i / 13;
        let r = i % 13;
        assert(Suit::at(s).index() == s);
        assert(Rank::at(r).index() == r);
    }
    assert forall|c: Card| 0 <= #[trigger] c.index() < 52 && Card::standard()[c.index()] == c by {
        lemma_index_split(c.suit.index(), c.rank.index());
    }
    assert forall|i: int, j: int|
        0 <= i < Card::standard().len() && 0 <= j < Card::standard().len() && i != j
    implies Card::standard()[i] != Card::standard()[j] by {
        assert(Card::standard()[i].index() == i);
        assert(Card::standard()[j].index() == j);
    }
}

/// Each sort order tells any two distinct cards apart: equal keys mean equal
/// cards, so sorting a collection into an order has one possible outcome.
pub proof fn lemma_sort_key_injective(a: Card, b: Card, order: CardOrder)
    requires
        a.sort_key(order) == b.sort_key(order),
    ensures
        a == b,
{
    let (ra, sa, rb, sb) = (a.rank.index(), a.suit.index(), b.rank.index(), b.suit.index());
    assert(0 <= ra < 13 && 0 <= rb < 13 && 0 <= sa < 4 && 0 <= sb < 4);
    assert(ra == rb && sa == sb);
}

/// Cloning a card gives the same card, so a sequence of clones of cards is the
/// sequence itself: for standard cards, what a deck or hand hands out as copies
/// are exactly its cards.
pub proof fn lemma_card_clones_equal(a: Seq<Card>, b: Seq<Card>)
    requires
        clones(a, b),
    ensures
        a == b,
{
    assert forall|i: int| 0 <= i < a.len() implies a[i] == b[i] by {
        assert(cloned::<Card>(a[i], b[i]));
    }
    assert(a =~= b);
}

} // verus!
