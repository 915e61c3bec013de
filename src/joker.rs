use crate::card::DisplayCard;
use crate::error::CardError;
use crate::suit::Color;
use vstd::prelude::*;
use vstd::string::*;

verus! {

/// A joker, black or red.
#[derive(Clone, Copy, Debug, PartialEq, Eq, Structural)]
pub struct Joker {
    /// The joker's colour.
    pub color: Color,
}

impl Default for Joker {
    fn default() -> (r: Joker)
        ensures
            r.color == Color::Black,
    {
        Joker { color: Color::Black }
    }
}

/// `c` is the letter `upper` in either case.
pub open spec fn is_letter(c: char, upper: char) -> bool {
    c == upper || c as u32 == upper as u32 + 32
}

impl Joker {
    /// The joker that a code denotes: "JK" (black, the default), or a colour
    /// letter followed by "JK": "BJK" black, "RJK" red; letters in either case.
    pub open spec fn decode(s: Seq<char>) -> Option<Joker> {
        if s.len() == 2 && is_letter(s[0], 'J') && is_letter(s[1], 'K') {
            Some(Joker { color: Color::Black })
        } else if s.len() == 3 && is_letter(s[1], 'J') && is_letter(s[2], 'K') {
            if is_letter(s[0], 'B') {
                Some(Joker { color: Color::Black })
            } else if is_letter(s[0], 'R') {
                Some(Joker { color: Color::Red })
            } else {
                None
            }
        } else {
            None
        }
    }
}

/// Tests whether `c` is the letter `upper` in either case.
fn letter_is(c: char, upper: char) -> (r: bool)
    requires
        'A' <= upper <= 'Z',
    ensures
        r == is_letter(c, upper),
{
    c == upper || c as u32 == upper as u32 + 32
}

impl DisplayCard for Joker {
    /// The code of a joker, "JK".
    fn to_str(&self) -> (r: String)
        ensures
            r@ == "JK"@,
    {
        <String as StringExecFns>::from_str("JK")
    }

    /// Reads a joker from "JK", "BJK" or "RJK", in either case.
    fn from_str(s: &str) -> (r: Result<Joker, CardError>)
        ensures
            match Joker::decode(s@) {
                Some(j) => r == Ok::<Joker, CardError>(j),
                None => r == Err::<Joker, CardError>(CardError::InvalidFormat),
            },
    {
        let n = s.unicode_len();
        if n == 2 {
            if letter_is(s.get_char(0), 'J') && letter_is(s.get_char(1), 'K') {
                return Ok(Joker::default());
            }
        } else if n == 3 {
            if letter_is(s.get_char(1), 'J') && letter_is(s.get_char(2), 'K') {
                let c = s.get_char(0);
                if letter_is(c, 'B') {
                    return Ok(Joker { color: Color::Black });
                } else if letter_is(c, 'R') {
                    return Ok(Joker { color: Color::Red });
                }
            }
        }
        Err(CardError::InvalidFormat)
    }

    /// The name of a joker, "Joker".
    fn name(&self) -> (r: String)
        ensures
            r@ == "Joker"@,
    {
        <String as StringExecFns>::from_str("Joker")
    }
}

} // verus!
