//! Word lists for the NLP tier.
use vstd::prelude::*;

verus! {

/// Intensifying adverbs that carry no content and are dropped.
pub const INTENSIFIERS: [&'static str; 2] = ["very", "really"];

/// Verbose verbs and their short synonyms.
pub const VERB_SYNONYMS: [(&'static str, &'static str); 1] = [("utilize", "use")];

/// Verbose nouns and their short synonyms.
pub const NOUN_SYNONYMS: [(&'static str, &'static str); 1] = [("repository", "repo")];

} // verus!
