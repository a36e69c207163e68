//! Structural meta-commentary ("Here's ...:", "In summary, ...").
use vstd::prelude::*;

use crate::pattern::{all_fold, replace_all_each, views, yields};

verus! {

/// Sentence-opening meta-commentary phrases, each with the sentence
/// boundary before it captured as group 1.
pub const STRUCTURAL: [&'static str; 10] = [
    r#"(?im)((?:^|[.!?])\s{0,3})Here(?:'s|\u{2019}s| (?:is|are|was|were)) [^:\n]{0,80}:\s*"#,
    r#"(?im)((?:^|[.!?])\s{0,3})Below (?:is|are) [^:\n]{0,80}:\s*"#,
    r#"(?im)((?:^|[.!?])\s{0,3})The following\s+[^:\n]{0,80}:\s*"#,
    r#"(?im)((?:^|[.!?])\s{0,3})I(?:'ve|\u{2019}ve| have) (?:outlined|listed|summarized|described|detailed|provided) [^:\n]{0,80}:\s*"#,
    r#"(?im)((?:^|[.!?])\s{0,3})(?:To summarize|In summary|In conclusion|To conclude|To recap|To sum up|In short|In brief|In closing|To wrap up)[,:]?\s*"#,
    r#"(?im)((?:^|[.!?])\s{0,3})To (?:begin|start)(?:\s+with)?[,:]\s*"#,
    r#"(?im)((?:^|[.!?])\s{0,3})First things first[,:]\s*"#,
    r#"(?im)((?:^|[.!?])\s{0,3})(?:To explain|To clarify|To illustrate)[,:]\s*"#,
    r#"(?im)((?:^|[.!?])\s{0,3})(?:Put differently|Put simply|Simply put)[,:]?\s*"#,
    r#"(?im)((?:^|[.!?])\s{0,3})(?:TL;DR|Bottom line|Note|Key takeaways?)[,:]\s*"#,
];

/// Each structural pattern in turn has all its matches replaced by the
/// sentence boundary they captured.
pub open spec fn remove_structural_spec(t: Seq<char>) -> Option<Seq<char>> {
    all_fold(Some(t), views(STRUCTURAL@), "$1"@)
}

/// Drops structural meta-commentary such as "Here is the plan:".
pub fn remove_structural_meta_commentary(text: &str) -> (res: Result<String, String>)
    ensures
        yields(res, remove_structural_spec(text@)),
{
    replace_all_each(&STRUCTURAL, text, "$1")
}

} // verus!
