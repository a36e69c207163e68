//! The compression tiers: rule-based trimming, light NLP and the LLM rewrite.
pub mod llm;
pub mod nlp;
pub mod rules;
