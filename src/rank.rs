use crate::error::CardError;
use crate::order::{compare, compare_usize};
use std::cmp::Ordering;
use vstd::prelude::*;

verus! {

/// The rank of a playing card, from Two up to Ace (Ace is high).
#[derive(Clone, Copy, Debug, PartialEq, Eq, Structural, Hash, PartialOrd, Ord)]
pub enum Rank {
    Two,
    Three,
    Four,
    Five,
    Six,
    Seven,
    Eight,
    Nine,
    Ten,
    Jack,
    Queen,
    King,
    Ace,
}

/// Number of ranks.
pub const RANK_COUNT: usize = 13;

impl Rank {
    /// Position of the rank in the order Two (0) .. Ace (12).
    pub open spec fn index(self) -> int {
        match self {
            Rank::Two => 0,
            Rank::Three => 1,
            Rank::Four => 2,
            Rank::Five => 3,
            Rank::Six => 4,
            Rank::Seven => 5,
            Rank::Eight => 6,
            Rank::Nine => 7,
            Rank::Ten => 8,
            Rank::Jack => 9,
            Rank::Queen => 10,
            Rank::King => 11,
            Rank::Ace => 12,
        }
    }

    /// The rank at a position of the order Two .. Ace.
    pub open spec fn at(i: int) -> Rank {
        if i <= 0 {
            Rank::Two
        } else if i == 1 {
            Rank::Three
        } else if i == 2 {
            Rank::Four
        } else if i == 3 {
            Rank::Five
        } else if i == 4 {
            Rank::Six
        } else if i == 5 {
            Rank::Seven
        } else if i == 6 {
            Rank::Eight
        } else if i == 7 {
            Rank::Nine
        } else if i == 8 {
            Rank::Ten
        } else if i == 9 {
            Rank::Jack
        } else if i == 10 {
            Rank::Queen
        } else if i == 11 {
            Rank::King
        } else {
            Rank::Ace
        }
    }

    /// Position of the rank when Ace counts low: Ace (0), Two (1) .. King (12).
    pub open spec fn ace_low_index(self) -> int {
        if self == Rank::Ace {
            0
        } else {
            self.index() + 1
        }
    }

    /// The character that encodes the rank.
    pub open spec fn code(self) -> char {
        match self {
            Rank::Two => '2',
            Rank::Three => '3',
            Rank::Four => '4',
            Rank::Five => '5',
            Rank::Six => '6',
            Rank::Seven => '7',
            Rank::Eight => '8',
            Rank::Nine => '9',
            Rank::Ten => 'T',
            Rank::Jack => 'J',
            Rank::Queen => 'Q',
            Rank::King => 'K',
            Rank::Ace => 'A',
        }
    }

    /// The rank that a character encodes, in either case; '1' also stands for Ace.
    pub open spec fn decode(c: char) -> Option<Rank> {
        if c == '2' {
            Some(Rank::Two)
        } else if c == '3' {
            Some(Rank::Three)
        } else if c == '4' {
            Some(Rank::Four)
        } else if c == '5' {
            Some(Rank::Five)
        } else if c == '6' {
            Some(Rank::Six)
        } else if c == '7' {
            Some(Rank::Seven)
        } else if c == '8' {
            Some(Rank::Eight)
        } else if c == '9' {
            Some(Rank::Nine)
        } else if c == 'T' || c == 't' {
            Some(Rank::Ten)
        } else if c == 'J' || c == 'j' {
            Some(Rank::Jack)
        } else if c == 'Q' || c == 'q' {
            Some(Rank::Queen)
        } else if c == 'K' || c == 'k' {
            Some(Rank::King)
        } else if c == 'A' || c == 'a' || c == '1' {
            Some(Rank::Ace)
        } else {
            None
        }
    }

    /// The English name of the rank.
    pub open spec fn spec_name(self) -> Seq<char> {
        match self {
            Rank::Two => "Two"@,
            Rank::Three => "Three"@,
            Rank::Four => "Four"@,
            Rank::Five => "Five"@,
            Rank::Six => "Six"@,
            Rank::Seven => "Seven"@,
            Rank::Eight => "Eight"@,
            Rank::Nine => "Nine"@,
            Rank::Ten => "Ten"@,
            Rank::Jack => "Jack"@,
            Rank::Queen => "Queen"@,
            Rank::King => "King"@,
            Rank::Ace => "Ace"@,
        }
    }

    /// Returns the position of the rank, Two being 0 and Ace 12.
    pub fn ordinal(&self) -> (r: usize)
        ensures
            r == self.index(),
    {
        match self {
            Rank::Two => 0,
            Rank::Three => 1,
            Rank::Four => 2,
            Rank::Five => 3,
            Rank::Six => 4,
            Rank::Seven => 5,
            Rank::Eight => 6,
            Rank::Nine => 7,
            Rank::Ten => 8,
            Rank::Jack => 9,
            Rank::Queen => 10,
            Rank::King => 11,
            Rank::Ace => 12,
        }
    }

    /// Returns the rank at position `i`, Two being 0 and Ace 12.
    pub fn from_ordinal(i: usize) -> (r: Rank)
        requires
            i < RANK_COUNT,
        ensures
            r == Rank::at(i as int),
            r.index() == i,
    {
        if i == 0 {
            Rank::Two
        } else if i == 1 {
            Rank::Three
        } else if i == 2 {
            Rank::Four
        } else if i == 3 {
            Rank::Five
        } else if i == 4 {
            Rank::Six
        } else if i == 5 {
            Rank::Seven
        } else if i == 6 {
            Rank::Eight
        } else if i == 7 {
            Rank::Nine
        } else if i == 8 {
            Rank::Ten
        } else if i == 9 {
            Rank::Jack
        } else if i == 10 {
            Rank::Queen
        } else if i == 11 {
            Rank::King
        } else {
            Rank::Ace
        }
    }

    /// Returns all ranks in ascending order, Two to Ace.
    pub fn iterator() -> (r: Vec<Rank>)
        ensures
            r@.len() == RANK_COUNT,
            forall|i: int| 0 <= i < RANK_COUNT ==> #[trigger] r@[i] == Rank::at(i),
    {
        let mut r: Vec<Rank> = Vec::new();
        let mut i: usize = 0;
        while i < RANK_COUNT
            invariant
                i <= RANK_COUNT,
                r@.len() == i,
                forall|j: int| 0 <= j < i ==> #[trigger] r@[j] == Rank::at(j),
            decreases RANK_COUNT - i,
        {
            r.push(Rank::from_ordinal(i));
            i = i + 1;
        }
        r
    }

    /// Returns the character for the rank, e.g. 'A' for Ace.
    pub fn to_char(&self) -> (r: char)
        ensures
            r == self.code(),
    {
        match self {
            Rank::Two => '2',
            Rank::Three => '3',
            Rank::Four => '4',
            Rank::Five => '5',
            Rank::Six => '6',
            Rank::Seven => '7',
            Rank::Eight => '8',
            Rank::Nine => '9',
            Rank::Ten => 'T',
            Rank::Jack => 'J',
            Rank::Queen => 'Q',
            Rank::King => 'K',
            Rank::Ace => 'A',
        }
    }

    /// Returns the rank encoded by a character, in either case ('1' is also Ace).
    pub fn from_char(c: char) -> (r: Result<Rank, CardError>)
        ensures
            match Rank::decode(c) {
                Some(k) => r == Ok::<Rank, CardError>(k),
                None => r == Err::<Rank, CardError>(CardError::InvalidFormat),
            },
    {
        if c == '2' {
            Ok(Rank::Two)
        } else if c == '3' {
            Ok(Rank::Three)
        } else if c == '4' {
            Ok(Rank::Four)
        } else if c == '5' {
            Ok(Rank::Five)
        } else if c == '6' {
            Ok(Rank::Six)
        } else if c == '7' {
            Ok(Rank::Seven)
        } else if c == '8' {
            Ok(Rank::Eight)
        } else if c == '9' {
            Ok(Rank::Nine)
        } else if c == 'T' || c == 't' {
            Ok(Rank::Ten)
        } else if c == 'J' || c == 'j' {
            Ok(Rank::Jack)
        } else if c == 'Q' || c == 'q' {
            Ok(Rank::Queen)
        } else if c == 'K' || c == 'k' {
            Ok(Rank::King)
        } else if c == 'A' || c == 'a' || c == '1' {
            Ok(Rank::Ace)
        } else {
            Err(CardError::InvalidFormat)
        }
    }

    /// Returns the rank's character as a one-character string.
    pub fn code_str(&self) -> (r: &'static str)
        ensures
            r@ =~= seq![self.code()],
    {
        match self {
            Rank::Two => {
                proof {
                    reveal_strlit("2");
                }
                "2"
            },
            Rank::Three => {
                proof {
                    reveal_strlit("3");
                }
                "3"
            },
            Rank::Four => {
                proof {
                    reveal_strlit("4");
                }
                "4"
            },
            Rank::Five => {
                proof {
                    reveal_strlit("5");
                }
                "5"
            },
            Rank::Six => {
                proof {
                    reveal_strlit("6");
                }
                "6"
            },
            Rank::Seven => {
                proof {
                    reveal_strlit("7");
                }
                "7"
            },
            Rank::Eight => {
                proof {
                    reveal_strlit("8");
                }
                "8"
            },
            Rank::Nine => {
                proof {
                    reveal_strlit("9");
                }
                "9"
            },
            Rank::Ten => {
                proof {
                    reveal_strlit("T");
                }
                "T"
            },
            Rank::Jack => {
                proof {
                    reveal_strlit("J");
                }
                "J"
            },
            Rank::Queen => {
                proof {
                    reveal_strlit("Q");
                }
                "Q"
            },
            Rank::King => {
                proof {
                    reveal_strlit("K");
                }
                "K"
            },
            Rank::Ace => {
                proof {
                    reveal_strlit("A");
                }
                "A"
            },
        }
    }

    /// Returns the English name of the rank, e.g. "Ace".
    pub fn to_str(&self) -> (r: &'static str)
        ensures
            r@ == self.spec_name(),
    {
        match self {
            Rank::Two => "Two",
            Rank::Three => "Three",
            Rank::Four => "Four",
            Rank::Five => "Five",
            Rank::Six => "Six",
            Rank::Seven => "Seven",
            Rank::Eight => "Eight",
            Rank::Nine => "Nine",
            Rank::Ten => "Ten",
            Rank::Jack => "Jack",
            Rank::Queen => "Queen",
            Rank::King => "King",
            Rank::Ace => "Ace",
        }
    }

    /// Compares two ranks with Ace counting as the lowest rank.
    pub fn cmp_ace_low(&self, other: &Rank) -> (r: Ordering)
        ensures
            r == compare(self.ace_low_index(), other.ace_low_index()),
    {
        let a: usize = if *self == Rank::Ace { 0 } else { self.ordinal() + 1 };
        let b: usize = if *other == Rank::Ace { 0 } else { other.ordinal() + 1 };
        compare_usize(a, b)
    }
}

} // verus!
