use crate::card::{lemma_card_clones_equal, Card};
use crate::cards::{Cards, SortCards};
use crate::decky::{lemma_reset_undoes_deal, top_cards, Decky};
use crate::error::CardError;
use crate::handy::clones;
use vstd::prelude::*;

verus! {

/// A deck of cards, split into an undealt pile and a dealt pile.
///
/// Dealing moves the top card (the last of `cards`) onto the dealt pile;
/// `reset` moves the dealt cards back. No operation creates or destroys a
/// card: the cards of the two piles together stay the same.
pub struct Deck<C> {
    /// The undealt cards; the last one is dealt next.
    pub cards: Vec<C>,
    /// The dealt cards, in the order they were dealt.
    pub dealt_cards: Vec<C>,
}

impl<C: Clone> Clone for Deck<C> {
    fn clone(&self) -> (r: Self)
        ensures
            r.cards@.len() == self.cards@.len(),
            r.dealt_cards@.len() == self.dealt_cards@.len(),
            forall|i: int|
                0 <= i < self.cards@.len() ==> cloned::<C>(self.cards@[i], #[trigger] r.cards@[i]),
            forall|i: int|
                0 <= i < self.dealt_cards@.len() ==> cloned::<C>(
                    self.dealt_cards@[i],
                    #[trigger] r.dealt_cards@[i],
                ),
    {
        Deck { cards: self.cards.clone(), dealt_cards: self.dealt_cards.clone() }
    }
}

impl<C> Cards<C> for Deck<C> {
    open spec fn card_seq(&self) -> Seq<C> {
        self.cards@
    }

    open spec fn same_apart_from_cards(&self, other: &Self) -> bool {
        self.dealt_cards@ == other.dealt_cards@
    }

    fn cards(&self) -> (r: &[C]) {
        self.cards.as_slice()
    }

    fn mut_cards(&mut self) -> (r: &mut [C]) {
        self.cards.as_mut_slice()
    }
}

impl Deck<Card> {
    /// Creates a standard deck: all 52 cards undealt, in the standard order.
    pub fn new() -> (r: Deck<Card>)
        ensures
            r.cards@ == Card::standard(),
            r.dealt_cards@ == Seq::<Card>::empty(),
    {
        Deck { cards: Card::all_cards(), dealt_cards: Vec::new() }
    }
}

/// Returns clones of `cards`, in order.
fn clone_all<C: Clone>(cards: &[C]) -> (r: Vec<C>)
    ensures
        clones(cards@, r@),
{
    let mut r: Vec<C> = Vec::new();
    let mut i: usize = 0;
    while i < cards.len()
        invariant
            i <= cards@.len(),
            r@.len() == i,
            forall|j: int| 0 <= j < i ==> cloned::<C>(cards@[j], #[trigger] r@[j]),
        decreases cards@.len() - i,
    {
        r.push(cards[i].clone());
        i = i + 1;
    }
    r
}

impl<C: Clone> Decky<C> for Deck<C> {
    open spec fn dealt_seq(&self) -> Seq<C> {
        self.dealt_cards@
    }

    fn empty() -> (r: Self) {
        Deck { cards: Vec::new(), dealt_cards: Vec::new() }
    }

    fn push(&mut self, cards: &[C]) {
        let mut added = clone_all(cards);
        let ghost n = self.cards@.len();
        let ghost a = added@;
        self.cards.append(&mut added);
        assert(self.cards@.subrange(0, n as int) =~= old(self).cards@);
        assert(self.cards@.subrange(n as int, self.cards@.len() as int) =~= a);
    }

    fn from_cards(cards: &[C]) -> (r: Self) {
        Deck { cards: clone_all(cards), dealt_cards: Vec::new() }
    }

    fn dealt_count(&self) -> (r: usize) {
        self.dealt_cards.len()
    }

    fn dealt_cards(&self) -> (r: &[C]) {
        self.dealt_cards.as_slice()
    }

    fn deal_one(&mut self) -> (r: Result<C, CardError>) {
        match self.cards.pop() {
            Some(card) => {
                let r = card.clone();
                self.dealt_cards.push(card);
                Ok(r)
            },
            None => Err(CardError::EmptyDeck),
        }
    }

    fn reset(&mut self) {
        let ghost d = old(self).dealt_cards@;
        while self.dealt_cards.len() > 0
            invariant
                self.dealt_cards@.len() <= d.len(),
                self.dealt_cards@ == d.subrange(0, self.dealt_cards@.len() as int),
                self.cards@ == old(self).cards@ + top_cards(
                    d,
                    d.len() - self.dealt_cards@.len(),
                ),
            decreases self.dealt_cards@.len(),
        {
            let ghost k = d.len() - self.dealt_cards@.len();
            match self.dealt_cards.pop() {
                Some(card) => {
                    self.cards.push(card);
                },
                None => {},
            }
            assert(self.dealt_cards@ =~= d.subrange(0, self.dealt_cards@.len() as int));
            assert(self.cards@ =~= old(self).cards@ + top_cards(d, k + 1));
        }
        assert(self.dealt_cards@ =~= Seq::<C>::empty());
    }

    fn reset_shuffle(&mut self) {
        self.reset();
        self.shuffle();
    }
}

impl SortCards for Deck<Card> {}

/// From a deck of standard cards with nothing dealt, dealing `k` cards,
/// resetting and dealing `k` cards again hands out the same cards in the same
/// order: the reset restores the undealt pile (`first` and `second` are what
/// the two deals return, by the contract of `deal`).
pub proof fn lemma_redeal_same_cards(u: Seq<Card>, k: int, first: Seq<Card>, second: Seq<Card>)
    requires
        0 <= k <= u.len(),
        clones(top_cards(u, k), first),
        clones(
            top_cards(
                u.subrange(0, u.len() - k) + top_cards(
                    Seq::<Card>::empty() + top_cards(u, k),
                    k,
                ),
                k,
            ),
            second,
        ),
    ensures
        u.subrange(0, u.len() - k) + top_cards(Seq::<Card>::empty() + top_cards(u, k), k) == u,
        first == second,
{
    lemma_reset_undoes_deal(u, Seq::<Card>::empty(), k);
    assert(Seq::<Card>::empty() + top_cards(u, k) =~= top_cards(u, k));
    lemma_card_clones_equal(top_cards(u, k), first);
    lemma_card_clones_equal(top_cards(u, k), second);
}

} // verus!
