//! Sentence-opening filler words.
use vstd::prelude::*;

use crate::pattern::{all_step, replace_all, yields};

verus! {

/// A filler word at the start of a sentence or line, with the sentence
/// boundary before it captured as group 1.
pub const SENTENCE_START_FILLERS: &'static str = r"(?im)((?:^|[.!?])\s{0,3})(basically|essentially|simply|obviously|clearly|literally|honestly|actually|frankly|truthfully|personally|genuinely|admittedly|undoubtedly|certainly|naturally|importantly|notably|interestingly|surprisingly|unsurprisingly|thankfully|fortunately|unfortunately|luckily|of course),?\s+";

/// Every sentence-opening filler is dropped and the boundary before it kept.
pub open spec fn remove_fillers_spec(t: Seq<char>) -> Option<Seq<char>> {
    all_step(Some(t), SENTENCE_START_FILLERS@, "$1"@)
}

/// Drops sentence-opening filler words, keeping the sentence boundary.
pub fn remove_fillers(text: &str) -> (res: Result<String, String>)
    ensures
        yields(res, remove_fillers_spec(text@)),
{
    replace_all(SENTENCE_START_FILLERS, text, "$1")
}

} // verus!
