use crate::cards::Cards;
use crate::error::CardError;
use crate::handy::{clones, Handy};
use vstd::multiset::Multiset;
use vstd::prelude::*;

verus! {

/// The top `k` cards of the pile `u` in the order they are dealt: its last card first.
pub open spec fn top_cards<C>(u: Seq<C>, k: int) -> Seq<C> {
    Seq::new(k as nat, |i: int| u[u.len() - 1 - i])
}

/// How many cards asking for `n` deals from a pile of `len` cards gives.
pub open spec fn dealable(n: int, len: int) -> int {
    if n < len {
        n
    } else {
        len
    }
}

/// A deck: an undealt pile (`card_seq`, dealt from its end) and a dealt pile.
pub trait Decky<C: Clone>: Cards<C> {
    /// The dealt cards, in the order they were dealt.
    spec fn dealt_seq(&self) -> Seq<C>;

    /// Creates an empty deck.
    fn empty() -> (r: Self)
        ensures
            r.card_seq() == Seq::<C>::empty(),
            r.dealt_seq() == Seq::<C>::empty(),
    ;

    /// Adds cards after the undealt ones, in order.
    fn push(&mut self, cards: &[C])
        ensures
            final(self).card_seq().len() == old(self).card_seq().len() + cards@.len(),
            final(self).card_seq().subrange(0, old(self).card_seq().len() as int) == old(
                self,
            ).card_seq(),
            clones(
                cards@,
                final(self).card_seq().subrange(
                    old(self).card_seq().len() as int,
                    final(self).card_seq().len() as int,
                ),
            ),
            final(self).dealt_seq() == old(self).dealt_seq(),
    ;

    /// Creates a deck whose undealt pile holds the given cards, as given.
    fn from_cards(cards: &[C]) -> (r: Self)
        ensures
            clones(cards@, r.card_seq()),
            r.dealt_seq() == Seq::<C>::empty(),
    ;

    /// Returns the number of undealt cards.
    fn undealt_count(&self) -> (r: usize)
        ensures
            r == self.card_seq().len(),
    {
        self.cards().len()
    }

    /// Returns the number of dealt cards.
    fn dealt_count(&self) -> (r: usize)
        ensures
            r == self.dealt_seq().len(),
    ;

    /// Returns the number of cards, dealt or undealt.
    fn count(&self) -> (r: usize)
        requires
            self.card_seq().len() + self.dealt_seq().len() <= usize::MAX,
        ensures
            r == self.card_seq().len() + self.dealt_seq().len(),
    {
        self.undealt_count() + self.dealt_count()
    }

    /// Returns the dealt cards.
    fn dealt_cards(&self) -> (r: &[C])
        ensures
            r@ == self.dealt_seq(),
    ;

    /// Returns a copy of the top card, the next to be dealt, if there is one.
    fn top_card(&self) -> (r: Option<C>)
        ensures
            self.card_seq().len() == 0 ==> r is None,
            self.card_seq().len() > 0 ==> r is Some && cloned::<C>(self.card_seq().last(), r->0),
    {
        match self.cards().last() {
            Some(c) => Some(c.clone()),
            None => None,
        }
    }

    /// Returns a copy of the bottom card, the last to be dealt, if there is one.
    fn bottom_card(&self) -> (r: Option<C>)
        ensures
            self.card_seq().len() == 0 ==> r is None,
            self.card_seq().len() > 0 ==> r is Some && cloned::<C>(self.card_seq()[0], r->0),
    {
        match self.cards().first() {
            Some(c) => Some(c.clone()),
            None => None,
        }
    }

    /// Moves the top card onto the dealt pile and returns a copy of it; fails
    /// with `EmptyDeck` when no undealt card is left.
    fn deal_one(&mut self) -> (r: Result<C, CardError>)
        ensures
            old(self).card_seq().len() == 0 ==> r == Err::<C, CardError>(CardError::EmptyDeck)
                && final(self).card_seq() == old(self).card_seq() && final(self).dealt_seq()
                == old(self).dealt_seq(),
            old(self).card_seq().len() > 0 ==> r is Ok && cloned::<C>(
                old(self).card_seq().last(),
                r->Ok_0,
            ) && final(self).card_seq() == old(self).card_seq().drop_last()
                && final(self).dealt_seq() == old(self).dealt_seq().push(
                old(self).card_seq().last(),
            ),
    ;

    /// Deals up to `numcards` cards one by one, stopping when the undealt pile
    /// runs out, and returns copies of them in dealing order.
    fn deal(&mut self, numcards: usize) -> (r: Vec<C>)
        ensures
            final(self).card_seq() == old(self).card_seq().subrange(
                0,
                old(self).card_seq().len() - dealable(
                    numcards as int,
                    old(self).card_seq().len() as int,
                ),
            ),
            final(self).dealt_seq() == old(self).dealt_seq() + top_cards(
                old(self).card_seq(),
                dealable(numcards as int, old(self).card_seq().len() as int),
            ),
            clones(
                top_cards(
                    old(self).card_seq(),
                    dealable(numcards as int, old(self).card_seq().len() as int),
                ),
                r@,
            ),
    {
        let mut r: Vec<C> = Vec::new();
        let mut i: usize = 0;
        while i < numcards && self.undealt_count() > 0
            invariant
                i <= numcards,
                i <= old(self).card_seq().len(),
                self.card_seq() == old(self).card_seq().subrange(
                    0,
                    old(self).card_seq().len() - i,
                ),
                self.dealt_seq() == old(self).dealt_seq() + top_cards(
                    old(self).card_seq(),
                    i as int,
                ),
                clones(top_cards(old(self).card_seq(), i as int), r@),
            decreases numcards - i,
        {
            let ghost before = self.card_seq();
            let ghost dealt_before = self.dealt_seq();
            let ghost r_before = r@;
            match self.deal_one() {
                Ok(card) => {
                    r.push(card);
                },
                Err(_) => {},
            }
            i = i + 1;
            proof {
                let top = top_cards(old(self).card_seq(), i as int);
                assert(top =~= top_cards(old(self).card_seq(), i - 1).push(before.last()));
                assert(self.card_seq() =~= old(self).card_seq().subrange(
                    0,
                    old(self).card_seq().len() - i,
                ));
                assert(self.dealt_seq() =~= old(self).dealt_seq() + top);
                assert forall|j: int| 0 <= j < top.len() implies cloned::<C>(
                    top[j],
                    #[trigger] r@[j],
                ) by {
                    if j < i - 1 {
                        assert(r@[j] == r_before[j]);
                    }
                }
            }
        }
        r
    }

    /// Deals up to `numcards` cards one by one into `hand`, stopping when the
    /// undealt pile runs out; returns how many were dealt.
    fn deal_to_hand<H: Handy<C>>(&mut self, hand: &mut H, numcards: usize) -> (r: usize)
        ensures
            r == dealable(numcards as int, old(self).card_seq().len() as int),
            final(self).card_seq() == old(self).card_seq().subrange(
                0,
                old(self).card_seq().len() - r,
            ),
            final(self).dealt_seq() == old(self).dealt_seq() + top_cards(
                old(self).card_seq(),
                r as int,
            ),
            final(hand).card_seq().len() == old(hand).card_seq().len() + r,
            final(hand).card_seq().subrange(0, old(hand).card_seq().len() as int) == old(
                hand,
            ).card_seq(),
            clones(
                top_cards(old(self).card_seq(), r as int),
                final(hand).card_seq().subrange(
                    old(hand).card_seq().len() as int,
                    final(hand).card_seq().len() as int,
                ),
            ),
    {
        let ghost h0 = hand.card_seq();
        let mut dealt: usize = 0;
        while dealt < numcards && self.undealt_count() > 0
            invariant
                dealt <= numcards,
                dealt <= old(self).card_seq().len(),
                self.card_seq() == old(self).card_seq().subrange(
                    0,
                    old(self).card_seq().len() - dealt,
                ),
                self.dealt_seq() == old(self).dealt_seq() + top_cards(
                    old(self).card_seq(),
                    dealt as int,
                ),
                hand.card_seq().len() == h0.len() + dealt,
                hand.card_seq().subrange(0, h0.len() as int) == h0,
                clones(
                    top_cards(old(self).card_seq(), dealt as int),
                    hand.card_seq().subrange(h0.len() as int, hand.card_seq().len() as int),
                ),
            decreases numcards - dealt,
        {
            let ghost before = self.card_seq();
            let ghost h_before = hand.card_seq();
            match self.deal_one() {
                Ok(card) => {
                    hand.push_card(card);
                },
                Err(_) => {},
            }
            dealt = dealt + 1;
            proof {
                let top = top_cards(old(self).card_seq(), dealt as int);
                let added = hand.card_seq().subrange(h0.len() as int, hand.card_seq().len() as int);
                assert(top =~= top_cards(old(self).card_seq(), dealt - 1).push(before.last()));
                assert(self.card_seq() =~= old(self).card_seq().subrange(
                    0,
                    old(self).card_seq().len() - dealt,
                ));
                assert(self.dealt_seq() =~= old(self).dealt_seq() + top);
                assert(hand.card_seq().subrange(0, h0.len() as int) =~= h0);
                assert forall|j: int| 0 <= j < top.len() implies cloned::<C>(
                    top[j],
                    #[trigger] added[j],
                ) by {
                    if j < dealt - 1 {
                        assert(added[j] == h_before.subrange(
                            h0.len() as int,
                            h_before.len() as int,
                        )[j]);
                    }
                }
            }
        }
        dealt
    }

    /// Moves the dealt cards back after the undealt ones, last dealt first,
    /// leaving the dealt pile empty.
    fn reset(&mut self)
        ensures
            final(self).card_seq() == old(self).card_seq() + top_cards(
                old(self).dealt_seq(),
                old(self).dealt_seq().len() as int,
            ),
            final(self).dealt_seq() == Seq::<C>::empty(),
    ;

    /// Resets the deck and then shuffles the undealt pile.
    fn reset_shuffle(&mut self)
        ensures
            final(self).card_seq().to_multiset() == (old(self).card_seq() + top_cards(
                old(self).dealt_seq(),
                old(self).dealt_seq().len() as int,
            )).to_multiset(),
            final(self).dealt_seq() == Seq::<C>::empty(),
    ;
}

/// Dealing `k` cards and then resetting leaves the undealt pile as resetting
/// alone would. In particular, from a deck with nothing dealt, dealing `k`
/// cards and resetting restores the undealt pile exactly, so dealing again
/// gives the same cards in the same order.
pub proof fn lemma_reset_undoes_deal<C>(u: Seq<C>, d: Seq<C>, k: int)
    requires
        0 <= k <= u.len(),
    ensures
        u.subrange(0, u.len() - k) + top_cards(
            d + top_cards(u, k),
            d.len() + k,
        ) == u + top_cards(d, d.len() as int),
        u.subrange(0, u.len() - k) + top_cards(top_cards(u, k), k) == u,
{
    let d1 = d + top_cards(u, k);
    let lhs = u.subrange(0, u.len() - k) + top_cards(d1, d.len() + k);
    let rhs = u + top_cards(d, d.len() as int);
    assert forall|i: int| 0 <= i < rhs.len() implies lhs[i] == rhs[i] by {
        if i >= u.len() - k && i < u.len() {
            let j = i - (u.len() - k);
            assert(d1[d.len() + k - 1 - j] == top_cards(u, k)[k - 1 - j]);
        }
    }
    assert(lhs =~= rhs);
    let e = Seq::<C>::empty();
    let lhs0 = u.subrange(0, u.len() - k) + top_cards(e + top_cards(u, k), k);
    assert(e + top_cards(u, k) =~= top_cards(u, k));
    assert forall|i: int| 0 <= i < u.len() implies lhs0[i] == u[i] by {
        if i >= u.len() - k {
            let j = i - (u.len() - k);
            assert(top_cards(u, k)[k - 1 - j] == u[u.len() - 1 - (k - 1 - j)]);
        }
    }
    assert(lhs0 =~= u);
}

/// Reversing a pile keeps its multiset of cards.
pub proof fn lemma_reversed_keeps_cards<C>(d: Seq<C>)
    ensures
        top_cards(d, d.len() as int).to_multiset() == d.to_multiset(),
    decreases d.len(),
{
    broadcast use vstd::seq_lib::group_to_multiset_ensures;
    broadcast use vstd::seq_lib::lemma_multiset_commutative;
    broadcast use vstd::multiset::group_multiset_axioms;

    if d.len() == 0 {
        assert(top_cards(d, 0) =~= Seq::<C>::empty());
    } else {
        let rest = d.drop_last();
        lemma_reversed_keeps_cards(rest);
        assert(top_cards(d, d.len() as int) =~= seq![d.last()] + top_cards(
            rest,
            rest.len() as int,
        ));
        assert(rest.push(d.last()) =~= d);
        assert(seq![d.last()].to_multiset() =~= Multiset::<C>::empty().insert(d.last())) by {
            assert(seq![d.last()] =~= Seq::<C>::empty().push(d.last()));
        }
        assert(top_cards(d, d.len() as int).to_multiset() =~= d.to_multiset());
    }
}

/// Dealing one card keeps the cards of the deck: the undealt and dealt piles
/// together hold the same multiset of cards before and after.
pub proof fn lemma_deal_one_keeps_cards<C>(u: Seq<C>, d: Seq<C>)
    requires
        u.len() > 0,
    ensures
        (u.drop_last() + d.push(u.last())).to_multiset() == (u + d).to_multiset(),
{
    broadcast use vstd::seq_lib::group_to_multiset_ensures;
    broadcast use vstd::seq_lib::lemma_multiset_commutative;
    broadcast use vstd::multiset::group_multiset_axioms;

    assert(u.drop_last().push(u.last()) =~= u);
    assert((u.drop_last() + d.push(u.last())).to_multiset() =~= (u + d).to_multiset());
}

/// Dealing `k` cards keeps the cards of the deck: the undealt and dealt piles
/// together hold the same multiset of cards before and after.
pub proof fn lemma_deal_keeps_cards<C>(u: Seq<C>, d: Seq<C>, k: int)
    requires
        0 <= k <= u.len(),
    ensures
        (u.subrange(0, u.len() - k) + (d + top_cards(u, k))).to_multiset() == (u
            + d).to_multiset(),
{
    broadcast use vstd::seq_lib::lemma_multiset_commutative;
    broadcast use vstd::multiset::group_multiset_axioms;

    let a = u.subrange(0, u.len() - k);
    let b = u.subrange(u.len() - k, u.len() as int);
    lemma_reversed_keeps_cards(b);
    assert(top_cards(u, k) =~= top_cards(b, b.len() as int));
    assert(a + b =~= u);
    assert((a + (d + top_cards(u, k))).to_multiset() =~= (u + d).to_multiset());
}

/// Resetting keeps the cards of the deck: the undealt and dealt piles together
/// hold the same multiset of cards before and after.
pub proof fn lemma_reset_keeps_cards<C>(u: Seq<C>, d: Seq<C>)
    ensures
        (u + top_cards(d, d.len() as int)).to_multiset() == (u + d).to_multiset(),
{
    broadcast use vstd::seq_lib::lemma_multiset_commutative;

    lemma_reversed_keeps_cards(d);
}

} // verus!
