//! Markdown formatting and typographic punctuation.
use vstd::prelude::*;

use crate::pattern::{all_step, fancy_replace, fancy_step, replace_all, yields};

verus! {

/// Horizontal rules on a line of their own.
pub const HR: &'static str = r"(?m)^[ \t]*[-*_]{3,}[ \t]*$";

/// Table separator rows.
pub const TABLE_SEP: &'static str = r"(?m)^\|[\s\-:|]+\|\s*$";

/// Heading markers.
pub const HEADING: &'static str = r"(?m)^#{1,6} ";

/// Bold text, with its content captured.
pub const BOLD: &'static str = r"\*\*([^*\n]+)\*\*";

/// Italic text with a single `*` on each side (needs look-around, so it is
/// a `fancy_regex` pattern), with its content captured.
pub const ITALIC: &'static str = r"(?<!\*)\*([^\s*\n][^*\n]*?)\*(?!\*)";

/// An em dash with a space on each side.
pub const EM_DASH: &'static str = " \u{2014} ";

/// Curly double quotes.
pub const CURLY_DOUBLE: &'static str = "[\u{201C}\u{201D}]";

/// Curly single quotes.
pub const CURLY_SINGLE: &'static str = "[\u{2018}\u{2019}]";

/// Rules, table separators and heading markers are removed, bold and italic
/// markers dropped around their content, spaced em dashes become ", " and
/// curly quotes become straight ones.
pub open spec fn strip_markdown_spec(t: Seq<char>) -> Option<Seq<char>> {
    let r1 = all_step(Some(t), HR@, ""@);
    let r2 = all_step(r1, TABLE_SEP@, ""@);
    let r3 = all_step(r2, HEADING@, ""@);
    let r4 = all_step(r3, BOLD@, "$1"@);
    let r5 = fancy_step(r4, ITALIC@, "$1"@);
    let r6 = all_step(r5, EM_DASH@, ", "@);
    let r7 = all_step(r6, CURLY_DOUBLE@, "\""@);
    all_step(r7, CURLY_SINGLE@, "'"@)
}

/// Removes markdown formatting and straightens typographic punctuation.
pub fn strip_markdown_formatting(text: &str) -> (res: Result<String, String>)
    ensures
        yields(res, strip_markdown_spec(text@)),
{
    let r1 = replace_all(HR, text, "")?;
    let r2 = replace_all(TABLE_SEP, r1.as_str(), "")?;
    let r3 = replace_all(HEADING, r2.as_str(), "")?;
    let r4 = replace_all(BOLD, r3.as_str(), "$1")?;
    let r5 = fancy_replace(ITALIC, r4.as_str(), "$1")?;
    let r6 = replace_all(EM_DASH, r5.as_str(), ", ")?;
    let r7 = replace_all(CURLY_DOUBLE, r6.as_str(), "\"")?;
    replace_all(CURLY_SINGLE, r7.as_str(), "'")
}

} // verus!
