//! Whitespace and punctuation normalisation.
use vstd::prelude::*;

use crate::pattern::{all_step, replace_all, yields};
use crate::text::{trim, trim_spec};

verus! {

/// Runs of line feeds.
pub const NEWLINES: &'static str = r"\n+";

/// Runs of spaces and tabs.
pub const MULTI_SPACE: &'static str = r"[ \t]+";

/// Three dots.
pub const ELLIPSIS: &'static str = r"\.{3}";

/// Two or more exclamation marks.
pub const MULTI_BANG: &'static str = r"!{2,}";

/// Two or more question marks.
pub const MULTI_QUESTION: &'static str = r"\?{2,}";

/// Line feeds become spaces, space runs collapse, `...` becomes an ellipsis
/// character, repeated `!`/`?` collapse, and the result is trimmed.
pub open spec fn normalize_whitespace_spec(t: Seq<char>) -> Option<Seq<char>> {
    let r1 = all_step(Some(t), NEWLINES@, " "@);
    let r2 = all_step(r1, MULTI_SPACE@, " "@);
    let r3 = all_step(r2, ELLIPSIS@, "\u{2026}"@);
    let r4 = all_step(r3, MULTI_BANG@, "!"@);
    let r5 = all_step(r4, MULTI_QUESTION@, "?"@);
    match r5 {
        Some(s) => Some(trim_spec(s)),
        None => None,
    }
}

/// Collapses whitespace and repeated punctuation, then trims.
pub fn normalize_whitespace(text: &str) -> (res: Result<String, String>)
    ensures
        yields(res, normalize_whitespace_spec(text@)),
{
    let r1 = replace_all(NEWLINES, text, " ")?;
    let r2 = replace_all(MULTI_SPACE, r1.as_str(), " ")?;
    let r3 = replace_all(ELLIPSIS, r2.as_str(), "\u{2026}")?;
    let r4 = replace_all(MULTI_BANG, r3.as_str(), "!")?;
    let r5 = replace_all(MULTI_QUESTION, r4.as_str(), "?")?;
    Ok(trim(r5.as_str()))
}

} // verus!
