//! The overall shape of an edgework line, matched by a regular expression.

use vstd::prelude::*;

verus! {

/// The error that `regex::Regex::new` reports for a pattern it cannot compile.
#[verifier::external_type_specification]
#[verifier::external_body]
pub struct ExRegexError(regex::Error);

/// Whether `regex::Regex::new` accepts `pattern`.
pub uninterp spec fn pattern_compiles(pattern: Seq<char>) -> bool;

/// What `regex::Regex::captures` finds when the regular expression compiled from
/// `pattern` is searched for in `haystack`: nothing, or the text of every capture
/// group, the whole match first, with `None` for a group that took no part.
pub uninterp spec fn pattern_groups(pattern: Seq<char>, haystack: Seq<char>) -> Option<
    Seq<Option<Seq<char>>>,
>;

/// The texts of a list of capture groups.
pub open spec fn groups_view(groups: Seq<Option<String>>) -> Seq<Option<Seq<char>>> {
    Seq::new(
        groups.len(),
        |i: int|
            match groups[i] {
                Some(text) => Some(text@),
                None => None,
            },
    )
}

/// What a search is known to have found.
pub open spec fn found_view(found: Option<Vec<Option<String>>>) -> Option<Seq<Option<Seq<char>>>> {
    match found {
        Some(groups) => Some(groups_view(groups@)),
        None => None,
    }
}

/// Compiles `pattern` with `regex::Regex::new` and searches `haystack` with
/// `regex::Regex::captures`. Trusted: the call fails exactly when the pattern does
/// not compile, and otherwise hands back what the search found, each group's text
/// copied out with `regex::Match::as_str`.
#[verifier::external_body]
fn capture_groups(pattern: &str, haystack: &str) -> (r: Result<
    Option<Vec<Option<String>>>,
    regex::Error,
>)
    ensures
        r is Ok <==> pattern_compiles(pattern@),
        r matches Ok(found) ==> found_view(found) == pattern_groups(pattern@, haystack@),
{
    let re = regex::Regex::new(pattern)?;
    Ok(re.captures(haystack).map(|caps| caps.iter().map(|m| m.map(|m| m.as_str().to_string())).collect()))
}

/// The regular expression that every edgework line matches.
pub open spec fn line_pattern() -> Seq<char> {
    r"^(\d+)B\s+(\d+)H // (?:(.*) // )?([0-9A-Z]{6})$"@
}

/// The parts of an edgework line, as text.
#[derive(Debug, Clone, PartialEq, Eq)]
pub struct LineFields {
    /// The number of batteries.
    pub batteries: String,
    /// The number of battery holders.
    pub holders: String,
    /// The sections between the battery counts and the serial number, if any.
    pub middle: Option<String>,
    /// The serial number.
    pub serial: String,
}

/// The parts of an edgework line, as sequences of characters.
pub struct LineFieldsModel {
    pub batteries: Seq<char>,
    pub holders: Seq<char>,
    pub middle: Option<Seq<char>>,
    pub serial: Seq<char>,
}

impl View for LineFields {
    type V = LineFieldsModel;

    open spec fn view(&self) -> LineFieldsModel {
        LineFieldsModel {
            batteries: self.batteries@,
            holders: self.holders@,
            middle: match self.middle {
                Some(text) => Some(text@),
                None => None,
            },
            serial: self.serial@,
        }
    }
}

/// The parts of a line from what a search for the line pattern found: the first
/// two capture groups are the battery and holder counts, the third, which may be
/// absent, the middle sections, and the fourth the serial number.
pub open spec fn fields_of_groups(found: Option<Seq<Option<Seq<char>>>>) -> Option<
    LineFieldsModel,
> {
    match found {
        Some(groups) => if groups.len() == 5 && groups[1] is Some && groups[2] is Some
            && groups[4] is Some {
            Some(
                LineFieldsModel {
                    batteries: groups[1]->0,
                    holders: groups[2]->0,
                    middle: groups[3],
                    serial: groups[4]->0,
                },
            )
        } else {
            None
        },
        None => None,
    }
}

/// What a search for the line pattern finds in `line`; nothing where the regex
/// crate does not compile the pattern.
pub open spec fn groups_of_line(line: Seq<char>) -> Option<Seq<Option<Seq<char>>>> {
    if pattern_compiles(line_pattern()) {
        pattern_groups(line_pattern(), line)
    } else {
        None
    }
}

/// The parts of `line`, if it has the shape of an edgework line.
pub open spec fn fields_of_line(line: Seq<char>) -> Option<LineFieldsModel> {
    fields_of_groups(groups_of_line(line))
}

/// The view of fields that may be absent.
pub open spec fn fields_view(fields: Option<LineFields>) -> Option<LineFieldsModel> {
    match fields {
        Some(fields) => Some(fields@),
        None => None,
    }
}

/// Names the parts of a line in what a search for the line pattern found.
pub fn fields_from_groups(found: &Option<Vec<Option<String>>>) -> (fields: Option<LineFields>)
    ensures
        fields_view(fields) == fields_of_groups(found_view(*found)),
{
    match found {
        Some(groups) => {
            if groups.len() != 5 {
                return None;
            }
            match (&groups[1], &groups[2], &groups[4]) {
                (Some(batteries), Some(holders), Some(serial)) => {
                    let middle = match &groups[3] {
                        Some(text) => Some(text.clone()),
                        None => None,
                    };
                    Some(
                        LineFields {
                            batteries: batteries.clone(),
                            holders: holders.clone(),
                            middle,
                            serial: serial.clone(),
                        },
                    )
                },
                _ => None,
            }
        },
        None => None,
    }
}

/// The capture groups of `line`, if it has the shape of an edgework line.
pub fn line_groups(line: &str) -> (found: Option<Vec<Option<String>>>)
    ensures
        found_view(found) == groups_of_line(line@),
{
    match capture_groups(r"^(\d+)B\s+(\d+)H // (?:(.*) // )?([0-9A-Z]{6})$", line) {
        Ok(found) => found,
        Err(_) => None,
    }
}

/// Cuts `line` into its parts, if it has the shape of an edgework line.
pub fn line_fields(line: &str) -> (fields: Option<LineFields>)
    ensures
        fields_view(fields) == fields_of_line(line@),
{
    let found = line_groups(line);
    fields_from_groups(&found)
}

} // verus!
