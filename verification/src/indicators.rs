//! Indicator codes and the table that records the state of each indicator.

use crate::text::{chars_of, text_is};
use vstd::prelude::*;

verus! {

/// The label of an indicator.
#[derive(Debug, Copy, Clone, PartialEq, Eq, Hash, Structural)]
pub enum IndicatorCode {
    SND,
    CLR,
    CAR,
    IND,
    FRQ,
    SIG,
    NSA,
    MSA,
    TRN,
    BOB,
    FRK,
}

/// The failure to read an indicator code.
#[derive(Clone, Copy, Debug, PartialEq, Eq, Structural)]
pub struct UnrecognizedIndicator;

impl IndicatorCode {
    /// The number of indicator codes.
    pub const COUNT: usize = 11;

    /// Every indicator code, in the order of their declaration.
    pub fn all() -> (codes: [IndicatorCode; 11])
        ensures
            forall|code: IndicatorCode| codes@[code.position()] == code,
    {
        [
            IndicatorCode::SND,
            IndicatorCode::CLR,
            IndicatorCode::CAR,
            IndicatorCode::IND,
            IndicatorCode::FRQ,
            IndicatorCode::SIG,
            IndicatorCode::NSA,
            IndicatorCode::MSA,
            IndicatorCode::TRN,
            IndicatorCode::BOB,
            IndicatorCode::FRK,
        ]
    }

    /// The place of this code among all codes, counted from zero.
    pub open spec fn position(self) -> int {
        match self {
            IndicatorCode::SND => 0,
            IndicatorCode::CLR => 1,
            IndicatorCode::CAR => 2,
            IndicatorCode::IND => 3,
            IndicatorCode::FRQ => 4,
            IndicatorCode::SIG => 5,
            IndicatorCode::NSA => 6,
            IndicatorCode::MSA => 7,
            IndicatorCode::TRN => 8,
            IndicatorCode::BOB => 9,
            IndicatorCode::FRK => 10,
        }
    }

    /// The place of this code among all codes, counted from zero.
    pub fn index(self) -> (i: usize)
        ensures
            i == self.position(),
            i < 11,
    {
        match self {
            IndicatorCode::SND => 0,
            IndicatorCode::CLR => 1,
            IndicatorCode::CAR => 2,
            IndicatorCode::IND => 3,
            IndicatorCode::FRQ => 4,
            IndicatorCode::SIG => 5,
            IndicatorCode::NSA => 6,
            IndicatorCode::MSA => 7,
            IndicatorCode::TRN => 8,
            IndicatorCode::BOB => 9,
            IndicatorCode::FRK => 10,
        }
    }

    /// The three letters of this code.
    pub open spec fn label(self) -> Seq<char> {
        match self {
            IndicatorCode::SND => "SND"@,
            IndicatorCode::CLR => "CLR"@,
            IndicatorCode::CAR => "CAR"@,
            IndicatorCode::IND => "IND"@,
            IndicatorCode::FRQ => "FRQ"@,
            IndicatorCode::SIG => "SIG"@,
            IndicatorCode::NSA => "NSA"@,
            IndicatorCode::MSA => "MSA"@,
            IndicatorCode::TRN => "TRN"@,
            IndicatorCode::BOB => "BOB"@,
            IndicatorCode::FRK => "FRK"@,
        }
    }

    /// The three letters of this code.
    pub fn name(self) -> (r: &'static str)
        ensures
            r@ == self.label(),
    {
        match self {
            IndicatorCode::SND => "SND",
            IndicatorCode::CLR => "CLR",
            IndicatorCode::CAR => "CAR",
            IndicatorCode::IND => "IND",
            IndicatorCode::FRQ => "FRQ",
            IndicatorCode::SIG => "SIG",
            IndicatorCode::NSA => "NSA",
            IndicatorCode::MSA => "MSA",
            IndicatorCode::TRN => "TRN",
            IndicatorCode::BOB => "BOB",
            IndicatorCode::FRK => "FRK",
        }
    }

    /// The three letters of this code, as an owned string.
    pub fn to_string(&self) -> (r: String)
        ensures
            r@ == self.label(),
    {
        String::from_str(self.name())
    }

    /// The code that `token` spells, if any. Codes are matched exactly.
    pub open spec fn named(token: Seq<char>) -> Option<IndicatorCode> {
        if token == "SND"@ {
            Some(IndicatorCode::SND)
        } else if token == "CLR"@ {
            Some(IndicatorCode::CLR)
        } else if token == "CAR"@ {
            Some(IndicatorCode::CAR)
        } else if token == "IND"@ {
            Some(IndicatorCode::IND)
        } else if token == "FRQ"@ {
            Some(IndicatorCode::FRQ)
        } else if token == "SIG"@ {
            Some(IndicatorCode::SIG)
        } else if token == "NSA"@ {
            Some(IndicatorCode::NSA)
        } else if token == "MSA"@ {
            Some(IndicatorCode::MSA)
        } else if token == "TRN"@ {
            Some(IndicatorCode::TRN)
        } else if token == "BOB"@ {
            Some(IndicatorCode::BOB)
        } else if token == "FRK"@ {
            Some(IndicatorCode::FRK)
        } else {
            None
        }
    }

    /// Reads an indicator code given as characters.
    pub fn from_chars(token: &[char]) -> (r: Result<IndicatorCode, UnrecognizedIndicator>)
        ensures
            r == match IndicatorCode::named(token@) {
                Some(code) => Ok::<IndicatorCode, UnrecognizedIndicator>(code),
                None => Err(UnrecognizedIndicator),
            },
    {
        if text_is(token, "SND") {
            Ok(IndicatorCode::SND)
        } else if text_is(token, "CLR") {
            Ok(IndicatorCode::CLR)
        } else if text_is(token, "CAR") {
            Ok(IndicatorCode::CAR)
        } else if text_is(token, "IND") {
            Ok(IndicatorCode::IND)
        } else if text_is(token, "FRQ") {
            Ok(IndicatorCode::FRQ)
        } else if text_is(token, "SIG") {
            Ok(IndicatorCode::SIG)
        } else if text_is(token, "NSA") {
            Ok(IndicatorCode::NSA)
        } else if text_is(token, "MSA") {
            Ok(IndicatorCode::MSA)
        } else if text_is(token, "TRN") {
            Ok(IndicatorCode::TRN)
        } else if text_is(token, "BOB") {
            Ok(IndicatorCode::BOB)
        } else if text_is(token, "FRK") {
            Ok(IndicatorCode::FRK)
        } else {
            Err(UnrecognizedIndicator)
        }
    }

    /// Reads an indicator code.
    pub fn from_str(token: &str) -> (r: Result<IndicatorCode, UnrecognizedIndicator>)
        ensures
            r == match IndicatorCode::named(token@) {
                Some(code) => Ok::<IndicatorCode, UnrecognizedIndicator>(code),
                None => Err(UnrecognizedIndicator),
            },
    {
        let chars = chars_of(token);
        IndicatorCode::from_chars(chars.as_slice())
    }
}

impl std::str::FromStr for IndicatorCode {
    type Err = UnrecognizedIndicator;

    fn from_str(token: &str) -> (r: Result<IndicatorCode, UnrecognizedIndicator>)
        ensures
            r == match IndicatorCode::named(token@) {
                Some(code) => Ok::<IndicatorCode, UnrecognizedIndicator>(code),
                None => Err(UnrecognizedIndicator),
            },
    {
        IndicatorCode::from_str(token)
    }
}

/// Whether an indicator is on the bomb, and if so, whether its light is on.
#[derive(Debug, Copy, Clone, PartialEq, Eq, Structural)]
pub enum IndicatorState {
    NotPresent,
    Unlit,
    Lit,
}

impl Default for IndicatorState {
    fn default() -> (r: IndicatorState)
        ensures
            r == IndicatorState::NotPresent,
    {
        IndicatorState::NotPresent
    }
}

/// The table in which no indicator is present.
pub open spec fn no_indicators() -> Map<IndicatorCode, IndicatorState> {
    Map::new(|code: IndicatorCode| true, |code: IndicatorCode| IndicatorState::NotPresent)
}

/// The state of every indicator.
#[derive(Debug, Copy, Clone, PartialEq)]
pub struct IndicatorTable {
    states: [IndicatorState; 11],
}

impl View for IndicatorTable {
    type V = Map<IndicatorCode, IndicatorState>;

    closed spec fn view(&self) -> Map<IndicatorCode, IndicatorState> {
        Map::new(|code: IndicatorCode| true, |code: IndicatorCode| self.states@[code.position()])
    }
}

impl IndicatorTable {
    /// The table in which no indicator is present.
    pub fn new() -> (r: IndicatorTable)
        ensures
            r@ == no_indicators(),
    {
        let r = IndicatorTable {
            states: [
                IndicatorState::NotPresent,
                IndicatorState::NotPresent,
                IndicatorState::NotPresent,
                IndicatorState::NotPresent,
                IndicatorState::NotPresent,
                IndicatorState::NotPresent,
                IndicatorState::NotPresent,
                IndicatorState::NotPresent,
                IndicatorState::NotPresent,
                IndicatorState::NotPresent,
                IndicatorState::NotPresent,
            ],
        };
        assert(r@ =~= no_indicators());
        r
    }

    /// The state of the indicator `code`.
    pub fn get(&self, code: IndicatorCode) -> (r: IndicatorState)
        ensures
            r == self@[code],
    {
        self.states[code.index()]
    }

    /// Records `state` for the indicator `code`, in place of what was recorded
    /// for it before.
    pub fn set(&mut self, code: IndicatorCode, state: IndicatorState)
        ensures
            final(self)@ == old(self)@.insert(code, state),
    {
        self.states[code.index()] = state;
        assert(final(self)@ =~= old(self)@.insert(code, state));
    }
}

/// Every code has a state in every table.
pub proof fn lemma_table_is_total(table: IndicatorTable, code: IndicatorCode)
    ensures
        table@.dom().contains(code),
{
}

} // verus!
