use crate::error::CardError;
use vstd::prelude::*;

verus! {

/// The colour of a suit, or of a joker.
#[derive(Clone, Copy, Debug, PartialEq, Eq, Structural, Hash)]
pub enum Color {
    Black,
    Red,
}

impl Default for Color {
    fn default() -> (r: Color)
        ensures
            r == Color::Black,
    {
        Color::Black
    }
}

/// The suit of a playing card. Suits order as Spades, Hearts, Diamonds, Clubs.
#[derive(Clone, Copy, Debug, PartialEq, Eq, Structural, Hash, PartialOrd, Ord)]
pub enum Suit {
    Spades,
    Hearts,
    Diamonds,
    Clubs,
}

/// Number of suits.
pub const SUIT_COUNT: usize = 4;

impl Suit {
    /// Position of the suit in the order Spades (0), Hearts, Diamonds, Clubs (3).
    pub open spec fn index(self) -> int {
        match self {
            Suit::Spades => 0,
            Suit::Hearts => 1,
            Suit::Diamonds => 2,
            Suit::Clubs => 3,
        }
    }

    /// The suit at a position of the order Spades .. Clubs.
    pub open spec fn at(i: int) -> Suit {
        if i <= 0 {
            Suit::Spades
        } else if i == 1 {
            Suit::Hearts
        } else if i == 2 {
            Suit::Diamonds
        } else {
            Suit::Clubs
        }
    }

    /// The character that encodes the suit.
    pub open spec fn code(self) -> char {
        match self {
            Suit::Spades => 'S',
            Suit::Hearts => 'H',
            Suit::Diamonds => 'D',
            Suit::Clubs => 'C',
        }
    }

    /// The suit that a character encodes, in either case.
    pub open spec fn decode(c: char) -> Option<Suit> {
        if c == 'S' || c == 's' {
            Some(Suit::Spades)
        } else if c == 'H' || c == 'h' {
            Some(Suit::Hearts)
        } else if c == 'D' || c == 'd' {
            Some(Suit::Diamonds)
        } else if c == 'C' || c == 'c' {
            Some(Suit::Clubs)
        } else {
            None
        }
    }

    /// The English name of the suit.
    pub open spec fn spec_name(self) -> Seq<char> {
        match self {
            Suit::Spades => "Spades"@,
            Suit::Hearts => "Hearts"@,
            Suit::Diamonds => "Diamonds"@,
            Suit::Clubs => "Clubs"@,
        }
    }

    /// The colour of the suit: Spades and Clubs are black, Hearts and Diamonds red.
    pub open spec fn spec_color(self) -> Color {
        match self {
            Suit::Spades | Suit::Clubs => Color::Black,
            Suit::Hearts | Suit::Diamonds => Color::Red,
        }
    }

    /// Returns the position of the suit, Spades being 0 and Clubs 3.
    pub fn ordinal(&self) -> (r: usize)
        ensures
            r == self.index(),
    {
        match self {
            Suit::Spades => 0,
            Suit::Hearts => 1,
            Suit::Diamonds => 2,
            Suit::Clubs => 3,
        }
    }

    /// Returns the suit at position `i`, Spades being 0 and Clubs 3.
    pub fn from_ordinal(i: usize) -> (r: Suit)
        requires
            i < SUIT_COUNT,
        ensures
            r == Suit::at(i as int),
            r.index() == i,
    {
        if i == 0 {
            Suit::Spades
        } else if i == 1 {
            Suit::Hearts
        } else if i == 2 {
            Suit::Diamonds
        } else {
            Suit::Clubs
        }
    }

    /// Returns all suits in order: Spades, Hearts, Diamonds, Clubs.
    pub fn iterator() -> (r: Vec<Suit>)
        ensures
            r@.len() == SUIT_COUNT,
            forall|i: int| 0 <= i < SUIT_COUNT ==> #[trigger] r@[i] == Suit::at(i),
    {
        let mut r: Vec<Suit> = Vec::new();
        let mut i: usize = 0;
        while i < SUIT_COUNT
            invariant
                i <= SUIT_COUNT,
                r@.len() == i,
                forall|j: int| 0 <= j < i ==> #[trigger] r@[j] == Suit::at(j),
            decreases SUIT_COUNT - i,
        {
            r.push(Suit::from_ordinal(i));
            i = i + 1;
        }
        r
    }

    /// Returns the character for the suit, e.g. 'H' for Hearts.
    pub fn to_char(&self) -> (r: char)
        ensures
            r == self.code(),
    {
        match self {
            Suit::Spades => 'S',
            Suit::Hearts => 'H',
            Suit::Diamonds => 'D',
            Suit::Clubs => 'C',
        }
    }

    /// Returns the suit encoded by a character, in either case.
    pub fn from_char(c: char) -> (r: Result<Suit, CardError>)
        ensures
            match Suit::decode(c) {
                Some(s) => r == Ok::<Suit, CardError>(s),
                None => r == Err::<Suit, CardError>(CardError::InvalidFormat),
            },
    {
        if c == 'S' || c == 's' {
            Ok(Suit::Spades)
        } else if c == 'H' || c == 'h' {
            Ok(Suit::Hearts)
        } else if c == 'D' || c == 'd' {
            Ok(Suit::Diamonds)
        } else if c == 'C' || c == 'c' {
            Ok(Suit::Clubs)
        } else {
            Err(CardError::InvalidFormat)
        }
    }

    /// Returns the suit's character as a one-character string.
    pub fn code_str(&self) -> (r: &'static str)
        ensures
            r@ =~= seq![self.code()],
    {
        match self {
            Suit::Spades => {
                proof {
                    reveal_strlit("S");
                }
                "S"
            },
            Suit::Hearts => {
                proof {
                    reveal_strlit("H");
                }
                "H"
            },
            Suit::Diamonds => {
                proof {
                    reveal_strlit("D");
                }
                "D"
            },
            Suit::Clubs => {
                proof {
                    reveal_strlit("C");
                }
                "C"
            },
        }
    }

    /// Returns the English name of the suit, e.g. "Hearts".
    pub fn to_str(&self) -> (r: &'static str)
        ensures
            r@ == self.spec_name(),
    {
        match self {
            Suit::Spades => "Spades",
            Suit::Hearts => "Hearts",
            Suit::Diamonds => "Diamonds",
            Suit::Clubs => "Clubs",
        }
    }

    /// Returns the colour of the suit.
    pub fn to_color(&self) -> (r: Color)
        ensures
            r == self.spec_color(),
    {
        match self {
            Suit::Spades | Suit::Clubs => Color::Black,
            Suit::Hearts | Suit::Diamonds => Color::Red,
        }
    }

    /// Returns the Unicode symbol of the suit.
    pub fn to_unicode(&self) -> (r: char)
        ensures
            r == match self {
                Suit::Spades => '\u{2660}',
                Suit::Hearts => '\u{2665}',
                Suit::Diamonds => '\u{2666}',
                Suit::Clubs => '\u{2663}',
            },
    {
        match self {
            Suit::Spades => '\u{2660}',
            Suit::Hearts => '\u{2665}',
            Suit::Diamonds => '\u{2666}',
            Suit::Clubs => '\u{2663}',
        }
    }
}

} // verus!
