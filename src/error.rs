use vstd::prelude::*;

verus! {

/// The recoverable failures of the library.
#[derive(Clone, Copy, Debug, PartialEq, Eq, Structural)]
pub enum CardError {
    /// A string does not decode to a card, rank or suit.
    InvalidFormat,
    /// A card was asked of a deck with no undealt cards left.
    EmptyDeck,
    /// An index lies past the end of a collection.
    IndexOutOfRange,
}

} // verus!
