//! Parsing of the answers the interactive prompt collaborator hands back:
//! the conflict decision and the final yes/no confirmation. Reading the
//! terminal and re-prompting on rejected input stay with the collaborator.

use vstd::prelude::*;
use crate::plan::Choice;
use crate::text;

verus! {

/// The decision an answer selects: `r`/`replace`, `b`/`backup`, `s`/`skip`,
/// compared case-insensitively after trimming; anything else is rejected.
pub open spec fn spec_parse_choice(input: Seq<char>) -> Option<Choice> {
    let t = text::spec_lower(text::spec_trim(input));
    if t == "r"@ || t == "replace"@ {
        Some(Choice::Replace)
    } else if t == "b"@ || t == "backup"@ {
        Some(Choice::Backup)
    } else if t == "s"@ || t == "skip"@ {
        Some(Choice::Skip)
    } else {
        None
    }
}

/// Parses one conflict answer; `None` asks the collaborator to prompt again.
pub fn parse_choice(input: &str) -> (r: Option<Choice>)
    ensures
        r == spec_parse_choice(input@),
{
    let t = text::trim_str(input);
    if text::str_eq_lower(t.as_str(), "r") || text::str_eq_lower(t.as_str(), "replace") {
        Some(Choice::Replace)
    } else if text::str_eq_lower(t.as_str(), "b") || text::str_eq_lower(t.as_str(), "backup") {
        Some(Choice::Backup)
    } else if text::str_eq_lower(t.as_str(), "s") || text::str_eq_lower(t.as_str(), "skip") {
        Some(Choice::Skip)
    } else {
        None
    }
}

/// Whether an answer confirms execution: `y` or `yes`, compared
/// case-insensitively after trimming; anything else declines.
pub open spec fn spec_parse_confirm(input: Seq<char>) -> bool {
    let t = text::spec_lower(text::spec_trim(input));
    t == "y"@ || t == "yes"@
}

/// Parses the final confirmation answer.
pub fn parse_confirm(input: &str) -> (r: bool)
    ensures
        r == spec_parse_confirm(input@),
{
    let t = text::trim_str(input);
    text::str_eq_lower(t.as_str(), "y") || text::str_eq_lower(t.as_str(), "yes")
}

} // verus!
