//! Tier names and the default configuration.
use vstd::prelude::*;

use crate::types::{CompressConfig, Tier, TokenMethod};

verus! {

/// The name of the rule tier.
pub const TIER_RULES: &'static str = "rules";

/// The name of the NLP tier.
pub const TIER_NLP: &'static str = "nlp";

/// The name of the LLM tier.
pub const TIER_LLM: &'static str = "llm";

/// The rule tier alone, with the byte-length token approximation.
pub fn default_config() -> (res: CompressConfig)
    ensures
        res.tiers@ == seq![Tier::Rules],
        res.token_method == TokenMethod::Chars,
{
    let mut tiers: Vec<Tier> = Vec::new();
    tiers.push(Tier::Rules);
    assert(tiers@ =~= seq![Tier::Rules]);
    CompressConfig { tiers, token_method: TokenMethod::Chars }
}

} // verus!
