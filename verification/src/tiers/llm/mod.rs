//! The LLM tier, which is planned but not available.
use vstd::prelude::*;

use crate::text::to_owned_string;

verus! {

/// The error that the LLM tier reports.
pub const LLM_UNAVAILABLE: &'static str = "LLM tier is not yet implemented. Planned: local model via llama-cpp or candle. Use tiers 'rules' or 'nlp' instead.";

/// The LLM tier: always fails with `LLM_UNAVAILABLE`.
pub fn apply_llm(_text: &str, _role: &str) -> (res: Result<String, String>)
    ensures
        res matches Err(e) && e@ == LLM_UNAVAILABLE@,
{
    Err(to_owned_string(LLM_UNAVAILABLE))
}

} // verus!
