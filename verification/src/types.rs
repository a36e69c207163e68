//! The data that the compression pipeline reads and produces.
use vstd::prelude::*;

use std::collections::HashMap;

verus! {

/// A JSON value carried through unchanged (message content blocks and
/// extra message fields).
#[verifier::external_type_specification]
#[verifier::external_body]
pub struct ExJsonValue(serde_json::Value);

/// A compression tier.
#[derive(Debug, Clone, Copy, PartialEq, Eq, Structural)]
pub enum Tier {
    Rules,
    Nlp,
    Llm,
}

/// How tokens are counted.
#[derive(Debug, Clone, Copy, PartialEq, Eq, Structural)]
pub enum TokenMethod {
    /// One token per four bytes, rounded up.
    Chars,
    /// The `cl100k_base` byte-pair encoding.
    Tiktoken,
}

/// Which tiers run, in order, and how tokens are counted.
#[derive(Debug, Clone)]
pub struct CompressConfig {
    pub tiers: Vec<Tier>,
    pub token_method: TokenMethod,
}

/// The compressed text of one message and its token counts.
#[derive(Debug, Clone)]
pub struct CompressResult {
    pub text: String,
    pub original_tokens: usize,
    pub compressed_tokens: usize,
    pub saved_tokens: usize,
    pub saved_percent: i64,
}

/// The content of a message: a plain string, null, or an array of blocks.
#[derive(Debug, Clone)]
pub enum MessageContent {
    Text(String),
    Null,
    Blocks(Vec<serde_json::Value>),
}

impl MessageContent {
    /// The string content, if the content is a plain string.
    pub fn as_text(&self) -> (res: Option<&str>)
        ensures
            match self {
                MessageContent::Text(s) => res matches Some(r) && r@ == s@,
                _ => res is None,
            },
    {
        match self {
            MessageContent::Text(s) => Some(s.as_str()),
            _ => None,
        }
    }
}

/// A message of a conversation history: its role, its content and any
/// other fields, which are passed through.
#[derive(Debug, Clone)]
pub struct Message {
    pub role: String,
    pub content: Option<MessageContent>,
    pub extra: HashMap<String, serde_json::Value>,
}

/// Token counts of one message.
#[derive(Debug, Clone, Copy)]
pub struct MessageStats {
    pub original_tokens: usize,
    pub compressed_tokens: usize,
    pub saved_tokens: usize,
    pub saved_percent: i64,
}

/// A message after compression, with its token counts.
#[derive(Debug, Clone)]
pub struct MessageWithStats {
    pub role: String,
    pub content: Option<MessageContent>,
    pub stats: MessageStats,
    pub extra: HashMap<String, serde_json::Value>,
}

/// Token counts over a whole history.
#[derive(Debug, Clone, Copy)]
pub struct HistoryStats {
    pub total_original_tokens: usize,
    pub total_compressed_tokens: usize,
    pub total_saved_tokens: usize,
    pub total_saved_percent: i64,
}

/// A compressed history and its totals.
#[derive(Debug, Clone)]
pub struct HistoryResult {
    pub messages: Vec<MessageWithStats>,
    pub stats: HistoryStats,
}

} // verus!
