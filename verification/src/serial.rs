//! Bomb serial numbers.

use crate::text::{chars_of, digit_of};
use vstd::prelude::*;
use vstd::string::is_ascii_spec_bytes;

verus! {

/// Whether `c` can appear in a serial number at a position that requires a digit.
pub open spec fn serial_digit(c: char) -> bool {
    '0' <= c <= '9'
}

/// Whether `c` can appear in a serial number at a position that requires a
/// letter: an upper-case ASCII letter other than `O` and `Y`.
pub open spec fn serial_letter(c: char) -> bool {
    'A' <= c <= 'Z' && c != 'O' && c != 'Y'
}

/// Whether `c` can appear in a serial number at all.
pub open spec fn serial_character(c: char) -> bool {
    serial_letter(c) || serial_digit(c)
}

/// Whether `s` is a serial number: six characters, of which the third and the
/// sixth are digits, the fourth and the fifth letters, and the first two either.
pub open spec fn valid_serial(s: Seq<char>) -> bool {
    &&& s.len() == 6
    &&& serial_character(s[0])
    &&& serial_character(s[1])
    &&& serial_digit(s[2])
    &&& serial_letter(s[3])
    &&& serial_letter(s[4])
    &&& serial_digit(s[5])
}

/// The serial number that `text` writes, if it writes one.
pub open spec fn parsed_serial(text: Seq<char>) -> Option<Seq<char>> {
    if valid_serial(text) {
        Some(text)
    } else {
        None
    }
}

/// The third character of the serial number `s`, as a number.
pub open spec fn middle_digit_of(s: Seq<char>) -> nat {
    digit_of(s[2])
}

/// The sixth character of the serial number `s`, as a number.
pub open spec fn last_digit_of(s: Seq<char>) -> nat {
    digit_of(s[5])
}

/// A valid bomb serial number.
#[derive(Debug, PartialEq, Eq)]
pub struct SerialNumber(String);

impl View for SerialNumber {
    type V = Seq<char>;

    closed spec fn view(&self) -> Seq<char> {
        self.0@
    }
}

impl SerialNumber {
    // O is replaced with E to avoid confusion with zeroes
    // Y is removed because some languages consider it a vowel and some don't
    // conclusion: not quite the alphabet
    pub const CHARSET: &'static str = "ABCDEFGHIJKLMNEPQRSTUVWXZ0123456789";

    #[verifier::type_invariant]
    spec fn is_valid(self) -> bool {
        valid_serial(self.0@)
    }

    /// Checks whether a character can appear in a serial number
    pub fn is_valid_character(c: char) -> (r: bool)
        ensures
            r == serial_character(c),
    {
        Self::is_valid_letter(c) || Self::is_valid_digit(c)
    }

    /// Checks whether a character can appear in a serial number at a position that
    /// requires a digit.
    pub fn is_valid_digit(c: char) -> (r: bool)
        ensures
            r == serial_digit(c),
    {
        c >= '0' && c <= '9'
    }

    /// Checks whether a character can appear in a serial number at a position that
    /// requires a letter.
    pub fn is_valid_letter(c: char) -> (r: bool)
        ensures
            r == serial_letter(c),
    {
        c >= 'A' && c <= 'Z' && c != 'O' && c != 'Y'
    }

    /// Create a new SerialNumber instance, after making sure the parameter is a
    /// valid bomb serial number.
    pub fn from_str(serial: &str) -> (r: Result<SerialNumber, ()>)
        ensures
            match r {
                Ok(number) => parsed_serial(serial@) == Some(number@),
                Err(_) => parsed_serial(serial@) is None,
            },
    {
        let chars = chars_of(serial);
        if chars.len() != 6 {
            return Err(());
        }
        if Self::is_valid_character(chars[0]) && Self::is_valid_character(chars[1])
            && Self::is_valid_digit(chars[2]) && Self::is_valid_letter(chars[3])
            && Self::is_valid_letter(chars[4]) && Self::is_valid_digit(chars[5]) {
            Ok(SerialNumber(String::from_str(serial)))
        } else {
            Err(())
        }
    }

    /// Returns the serial number as text, which is always a valid serial number.
    pub fn as_str(&self) -> (r: &str)
        ensures
            r@ == self@,
            valid_serial(r@),
    {
        proof {
            use_type_invariant(self);
        }
        self.0.as_str()
    }

    /// Returns a reference to the ASCII bytes that define the serial number.
    pub fn as_bytes(&self) -> (r: &[u8])
        ensures
            r@.len() == 6,
            forall|i: int| 0 <= i < 6 ==> r@[i] == self@[i] as u8,
    {
        proof {
            use_type_invariant(self);
        }
        let text = self.0.as_str();
        proof {
            assert(text.is_ascii());
            is_ascii_spec_bytes(text);
        }
        text.as_bytes()
    }

    /// Returns the 3rd character of the serial number, which is always a digit, as
    /// an integer.
    pub fn middle_digit(&self) -> (r: u8)
        ensures
            r == middle_digit_of(self@),
            r <= 9,
    {
        proof {
            use_type_invariant(self);
        }
        self.as_bytes()[2] - 48u8
    }

    /// Returns the trailing digit as an integer.
    pub fn last_digit(&self) -> (r: u8)
        ensures
            r == last_digit_of(self@),
            r <= 9,
    {
        proof {
            use_type_invariant(self);
        }
        self.as_bytes()[5] - 48u8
    }

    /// Returns true if and only if the serial number starts with a letter rather
    /// than a digit.
    pub fn starts_with_letter(&self) -> (r: bool)
        ensures
            r == serial_letter(self@[0]),
    {
        proof {
            use_type_invariant(self);
        }
        let first = self.as_bytes()[0];
        first >= 65u8 && first <= 90u8
    }
}

impl Clone for SerialNumber {
    fn clone(&self) -> (r: SerialNumber)
        ensures
            r@ == self@,
    {
        proof {
            use_type_invariant(self);
        }
        SerialNumber(self.0.clone())
    }
}

impl std::str::FromStr for SerialNumber {
    type Err = ();

    fn from_str(serial: &str) -> (r: Result<SerialNumber, ()>)
        ensures
            match r {
                Ok(number) => parsed_serial(serial@) == Some(number@),
                Err(_) => parsed_serial(serial@) is None,
            },
    {
        SerialNumber::from_str(serial)
    }
}

impl AsRef<str> for SerialNumber {
    fn as_ref(&self) -> (r: &str)
        ensures
            r@ == self@,
            valid_serial(r@),
    {
        self.as_str()
    }
}

/// Every valid serial number is read as itself, and its two digits are the
/// numbers that its third and sixth characters write.
pub proof fn lemma_valid_serial_round_trips(s: Seq<char>)
    requires
        valid_serial(s),
    ensures
        parsed_serial(s) == Some(s),
        middle_digit_of(s) <= 9,
        last_digit_of(s) <= 9,
        '0' as nat + middle_digit_of(s) == s[2] as nat,
        '0' as nat + last_digit_of(s) == s[5] as nat,
{
}

/// A text of another length than six, or one that holds `O`, `Y`, a lower-case
/// letter or a character outside ASCII, is no serial number.
pub proof fn lemma_forbidden_text_is_no_serial(s: Seq<char>)
    requires
        s.len() != 6 || exists|i: int|
            0 <= i < s.len() && (s[i] == 'O' || s[i] == 'Y' || 'a' <= #[trigger] s[i] <= 'z'
                || s[i] > '\u{7f}'),
    ensures
        parsed_serial(s) is None,
{
}

} // verus!
