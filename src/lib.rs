//! Playing cards: a standard card type, a dealable deck and a mutable hand,
//! generic over the card type so that games can bring their own cards.
use vstd::prelude::*;

pub mod card;
pub mod cards;
pub mod deck;
pub mod decky;
pub mod error;
pub mod hand;
pub mod joker;
pub mod handy;
pub mod order;
pub mod rank;
pub mod suit;

pub use card::{Card, CardOrder, DisplayCard};
pub use cards::{cards_of_rank, cards_of_suit, Cards, SortCards};
pub use deck::Deck;
pub use decky::Decky;
pub use error::CardError;
pub use hand::{Area, Hand};
pub use handy::Handy;
pub use joker::Joker;
pub use rank::Rank;
pub use suit::{Color, Suit};

verus! {

} // verus!
