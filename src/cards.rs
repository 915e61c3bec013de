use crate::card::{lemma_sort_key_injective, Card, CardOrder};
use crate::rank::Rank;
use crate::suit::Suit;
use rand::Rng;
use vstd::prelude::*;

verus! {

/// Relies on `<[T]>::swap`: exchanges the elements at `a` and `b`, and panics
/// when either lies out of bounds.
pub assume_specification<Elem>[ <[Elem]>::swap ](s: &mut [Elem], a: usize, b: usize)
    requires
        a < old(s)@.len(),
        b < old(s)@.len(),
    ensures
        final(s)@ == old(s)@.update(a as int, old(s)@[b as int]).update(b as int, old(s)@[a as int]),
;

/// Relies on rand's `thread_rng().gen_range(0..bound)`: a value drawn from
/// `0..bound`; the range must not be empty.
#[verifier::external_body]
fn random_below(bound: usize) -> (r: usize)
    requires
        bound > 0,
    ensures
        r < bound,
{
    rand::thread_rng().gen_range(0..bound)
}

/// `s` with the elements at `a` and `b` exchanged.
pub open spec fn swapped<C>(s: Seq<C>, a: int, b: int) -> Seq<C> {
    s.update(a, s[b]).update(b, s[a])
}

/// Picks for a Knuth shuffle of `n` elements: the pick for position `i` lies in `0..=i`.
pub open spec fn valid_picks(picks: Seq<usize>, n: nat) -> bool {
    picks.len() == n && forall|i: int| 0 <= i < n ==> #[trigger] picks[i] <= i
}

/// The Knuth shuffle of `s` driven by `picks`, from position `i` down to 1:
/// position `k` is exchanged with position `picks[k]`.
pub open spec fn knuth<C>(s: Seq<C>, picks: Seq<usize>, i: int) -> Seq<C>
    decreases i,
{
    if i <= 0 {
        s
    } else {
        knuth(swapped(s, i, picks[i] as int), picks, i - 1)
    }
}

/// Exchanging two elements keeps the multiset of elements.
pub proof fn lemma_swap_keeps_multiset<C>(s: Seq<C>, a: int, b: int)
    requires
        0 <= a < s.len(),
        0 <= b < s.len(),
    ensures
        swapped(s, a, b).to_multiset() == s.to_multiset(),
        swapped(s, a, b).len() == s.len(),
{
    broadcast use vstd::seq_lib::group_to_multiset_ensures;

    let t = s.update(a, s[b]);
    vstd::seq_lib::to_multiset_update(s, a, s[b]);
    vstd::seq_lib::to_multiset_update(t, b, s[a]);
    assert(swapped(s, a, b).to_multiset() =~= s.to_multiset());
}

/// Shuffles `cards` in place by the Knuth shuffle, exchanging position `i`
/// with position `picks[i]` for `i` from the last position down to 1.
pub fn shuffle_with<C>(cards: &mut [C], picks: &[usize])
    requires
        valid_picks(picks@, old(cards)@.len()),
    ensures
        final(cards)@ == knuth(old(cards)@, picks@, old(cards)@.len() - 1),
        final(cards)@.to_multiset() == old(cards)@.to_multiset(),
        final(cards)@.len() == old(cards)@.len(),
{
    let n = cards.len();
    let mut i: usize = n;
    while i > 1
        invariant
            i <= n,
            n == old(cards)@.len(),
            cards@.len() == n,
            valid_picks(picks@, n as nat),
            knuth(cards@, picks@, i - 1) == knuth(old(cards)@, picks@, n - 1),
            cards@.to_multiset() == old(cards)@.to_multiset(),
        decreases i,
    {
        let j = picks[i - 1];
        proof {
            lemma_swap_keeps_multiset(cards@, (i - 1) as int, j as int);
        }
        cards.swap(i - 1, j);
        i = i - 1;
    }
}

/// Shuffles `cards` in place, uniformly at random, by the Knuth shuffle.
pub fn shuffle_cards<C>(cards: &mut [C])
    ensures
        final(cards)@.to_multiset() == old(cards)@.to_multiset(),
        final(cards)@.len() == old(cards)@.len(),
        exists|picks: Seq<usize>|
            valid_picks(picks, old(cards)@.len()) && final(cards)@ == knuth(
                old(cards)@,
                picks,
                old(cards)@.len() - 1,
            ),
{
    let n = cards.len();
    let mut picks: Vec<usize> = Vec::new();
    let mut i: usize = 0;
    while i < n
        invariant
            i <= n,
            picks@.len() == i,
            forall|k: int| 0 <= k < i ==> #[trigger] picks@[k] <= k,
        decreases n - i,
    {
        picks.push(random_below(i + 1));
        i = i + 1;
    }
    shuffle_with(cards, picks.as_slice());
}

/// `s` is in `order`: the sort keys do not decrease.
pub open spec fn sorted_by(s: Seq<Card>, order: CardOrder) -> bool {
    forall|a: int, b: int|
        0 <= a < b < s.len() ==> #[trigger] s[a].sort_key(order) <= #[trigger] s[b].sort_key(
            order,
        )
}

/// Sorts `cards` in place into `order` (an insertion sort).
pub fn sort_cards(cards: &mut [Card], order: CardOrder)
    ensures
        sorted_by(final(cards)@, order),
        final(cards)@.to_multiset() == old(cards)@.to_multiset(),
        final(cards)@.len() == old(cards)@.len(),
{
    let n = cards.len();
    let mut i: usize = 1;
    if n == 0 {
        return;
    }
    while i < n
        invariant
            1 <= i <= n,
            cards@.len() == n,
            n == old(cards)@.len(),
            cards@.to_multiset() == old(cards)@.to_multiset(),
            forall|a: int, b: int|
                0 <= a < b < i ==> #[trigger] cards@[a].sort_key(order)
                    <= #[trigger] cards@[b].sort_key(order),
        decreases n - i,
    {
        let mut j: usize = i;
        while j > 0 && cards[j - 1].key(order) > cards[j].key(order)
            invariant
                j <= i < n,
                cards@.len() == n,
                cards@.to_multiset() == old(cards)@.to_multiset(),
                forall|a: int, b: int|
                    0 <= a < b <= i && a != j && b != j ==> #[trigger] cards@[a].sort_key(order)
                        <= #[trigger] cards@[b].sort_key(order),
                forall|a: int, b: int|
                    0 <= a < j && j < b <= i ==> #[trigger] cards@[a].sort_key(order)
                        <= #[trigger] cards@[b].sort_key(order),
                forall|b: int|
                    j < b <= i ==> cards@[j as int].sort_key(order) < #[trigger] cards@[b].sort_key(
                        order,
                    ),
            decreases j,
        {
            proof {
                lemma_swap_keeps_multiset(cards@, (j - 1) as int, j as int);
            }
            cards.swap(j - 1, j);
            j = j - 1;
        }
        i = i + 1;
    }
}

/// The cards of `s` that have rank `rank`, in their order in `s`.
pub open spec fn with_rank(s: Seq<Card>, rank: Rank) -> Seq<Card>
    decreases s.len(),
{
    if s.len() == 0 {
        Seq::empty()
    } else if s.last().rank == rank {
        with_rank(s.drop_last(), rank).push(s.last())
    } else {
        with_rank(s.drop_last(), rank)
    }
}

/// The cards of `s` that have suit `suit`, in their order in `s`.
pub open spec fn with_suit(s: Seq<Card>, suit: Suit) -> Seq<Card>
    decreases s.len(),
{
    if s.len() == 0 {
        Seq::empty()
    } else if s.last().suit == suit {
        with_suit(s.drop_last(), suit).push(s.last())
    } else {
        with_suit(s.drop_last(), suit)
    }
}

/// Returns the cards of the given rank, in their order in `cards`.
pub fn cards_of_rank(cards: &[Card], rank: Rank) -> (r: Vec<Card>)
    ensures
        r@ == with_rank(cards@, rank),
{
    let mut r: Vec<Card> = Vec::new();
    let mut i: usize = 0;
    while i < cards.len()
        invariant
            i <= cards@.len(),
            r@ == with_rank(cards@.subrange(0, i as int), rank),
        decreases cards@.len() - i,
    {
        assert(cards@.subrange(0, i + 1).drop_last() =~= cards@.subrange(0, i as int));
        if cards[i].rank == rank {
            r.push(cards[i]);
        }
        i = i + 1;
    }
    assert(cards@.subrange(0, cards@.len() as int) =~= cards@);
    r
}

/// Returns the cards of the given suit, in their order in `cards`.
pub fn cards_of_suit(cards: &[Card], suit: Suit) -> (r: Vec<Card>)
    ensures
        r@ == with_suit(cards@, suit),
{
    let mut r: Vec<Card> = Vec::new();
    let mut i: usize = 0;
    while i < cards.len()
        invariant
            i <= cards@.len(),
            r@ == with_suit(cards@.subrange(0, i as int), suit),
        decreases cards@.len() - i,
    {
        assert(cards@.subrange(0, i + 1).drop_last() =~= cards@.subrange(0, i as int));
        if cards[i].suit == suit {
            r.push(cards[i]);
        }
        i = i + 1;
    }
    assert(cards@.subrange(0, cards@.len() as int) =~= cards@);
    r
}

/// A collection that exposes its cards as an ordered sequence, readable and
/// mutable in place; shuffling acts on that sequence.
pub trait Cards<C>: Sized {
    /// The cards that shuffling and sorting act on, in order.
    spec fn card_seq(&self) -> Seq<C>;

    /// `self` and `other` agree in everything apart from their `card_seq`.
    spec fn same_apart_from_cards(&self, other: &Self) -> bool;

    /// Returns the cards.
    fn cards(&self) -> (r: &[C])
        ensures
            r@ == self.card_seq(),
    ;

    /// Returns the cards for changing in place.
    fn mut_cards(&mut self) -> (r: &mut [C])
        ensures
            r@ == old(self).card_seq(),
            final(r)@ == final(self).card_seq(),
            final(self).same_apart_from_cards(old(self)),
    ;

    /// Shuffles the cards in place, uniformly at random, by the Knuth shuffle.
    fn shuffle(&mut self)
        ensures
            final(self).card_seq().to_multiset() == old(self).card_seq().to_multiset(),
            final(self).card_seq().len() == old(self).card_seq().len(),
            exists|picks: Seq<usize>|
                valid_picks(picks, old(self).card_seq().len()) && final(self).card_seq() == knuth(
                    old(self).card_seq(),
                    picks,
                    old(self).card_seq().len() - 1,
                ),
            final(self).same_apart_from_cards(old(self)),
    {
        shuffle_cards(self.mut_cards());
    }
}

/// Sorting of a collection of standard cards in the orders of `CardOrder`.
pub trait SortCards: Cards<Card> {
    /// Sorts the cards by ascending rank, ties broken by suit.
    fn sort_ascending_rank_suit(&mut self)
        ensures
            sorted_by(final(self).card_seq(), CardOrder::RankThenSuit),
            final(self).card_seq().to_multiset() == old(self).card_seq().to_multiset(),
            final(self).card_seq().len() == old(self).card_seq().len(),
            final(self).same_apart_from_cards(old(self)),
    {
        sort_cards(self.mut_cards(), CardOrder::RankThenSuit);
    }

    /// Sorts the cards by descending rank, ties broken by suit.
    fn sort_descending_rank_suit(&mut self)
        ensures
            sorted_by(final(self).card_seq(), CardOrder::DescRankThenSuit),
            final(self).card_seq().to_multiset() == old(self).card_seq().to_multiset(),
            final(self).card_seq().len() == old(self).card_seq().len(),
            final(self).same_apart_from_cards(old(self)),
    {
        sort_cards(self.mut_cards(), CardOrder::DescRankThenSuit);
    }

    /// Sorts the cards by suit, ties broken by ascending rank.
    fn sort_suit_ascending_rank(&mut self)
        ensures
            sorted_by(final(self).card_seq(), CardOrder::SuitThenRank),
            final(self).card_seq().to_multiset() == old(self).card_seq().to_multiset(),
            final(self).card_seq().len() == old(self).card_seq().len(),
            final(self).same_apart_from_cards(old(self)),
    {
        sort_cards(self.mut_cards(), CardOrder::SuitThenRank);
    }

    /// Sorts the cards by suit, ties broken by descending rank.
    fn sort_suit_descending_rank(&mut self)
        ensures
            sorted_by(final(self).card_seq(), CardOrder::SuitThenDescRank),
            final(self).card_seq().to_multiset() == old(self).card_seq().to_multiset(),
            final(self).card_seq().len() == old(self).card_seq().len(),
            final(self).same_apart_from_cards(old(self)),
    {
        sort_cards(self.mut_cards(), CardOrder::SuitThenDescRank);
    }
}

/// Sorting has one outcome: two sequences that hold the same cards and are
/// both sorted in the same order are equal.
pub proof fn lemma_sorted_unique(s: Seq<Card>, t: Seq<Card>, order: CardOrder)
    requires
        sorted_by(s, order),
        sorted_by(t, order),
        s.to_multiset() == t.to_multiset(),
    ensures
        s == t,
    decreases s.len(),
{
    broadcast use vstd::seq_lib::group_to_multiset_ensures;
    broadcast use vstd::multiset::group_multiset_axioms;

    vstd::seq_lib::to_multiset_len(s);
    vstd::seq_lib::to_multiset_len(t);
    if s.len() == 0 {
        assert(t.to_multiset().len() == 0);
        assert(t =~= s);
    } else {
        assert(t.len() == s.len());
        assert(t.contains(t[0]));
        assert(s.contains(s[0]));
        assert(t.to_multiset().count(t[0]) > 0);
        assert(s.to_multiset().count(s[0]) > 0);
        assert(s.contains(t[0]));
        assert(t.contains(s[0]));
        let i = choose|i: int| 0 <= i < s.len() && s[i] == t[0];
        let j = choose|j: int| 0 <= j < t.len() && t[j] == s[0];
        if i > 0 {
            assert(s[0].sort_key(order) <= s[i].sort_key(order));
        }
        if j > 0 {
            assert(t[0].sort_key(order) <= t[j].sort_key(order));
        }
        lemma_sort_key_injective(s[0], t[0], order);
        vstd::seq_lib::to_multiset_remove(s, 0);
        vstd::seq_lib::to_multiset_remove(t, 0);
        assert(s.remove(0) =~= s.drop_first());
        assert(t.remove(0) =~= t.drop_first());
        assert(s.drop_first().to_multiset() =~= t.drop_first().to_multiset());
        lemma_sorted_unique(s.drop_first(), t.drop_first(), order);
        assert forall|k: int| 0 <= k < s.len() implies s[k] == t[k] by {
            if k > 0 {
                assert(s[k] == s.drop_first()[k - 1]);
                assert(t[k] == t.drop_first()[k - 1]);
            }
        }
        assert(s =~= t);
    }
}

} // verus!
