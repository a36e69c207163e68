use std::collections::HashMap;

use terse::config::{default_config, TIER_LLM, TIER_NLP, TIER_RULES};
use terse::mask::{mask_protected, unmask_protected};
use terse::pipeline::{apply_tier, extract_text, saved_percent};
use terse::text::trim;
use terse::tokens::estimate_tokens;
use terse::{
    compress, compress_history, CompressConfig, Message, MessageContent, Tier, TokenMethod,
};

const ASSISTANT_BOILERPLATE: &str = "Certainly! I'd be happy to help you with that. \
     Here is the information you requested. \
     I hope this helps! Let me know if you have any other questions.";

fn approx(tiers: Vec<Tier>) -> CompressConfig {
    CompressConfig { tiers, token_method: TokenMethod::Chars }
}

fn msg(role: &str, content: Option<MessageContent>) -> Message {
    Message { role: role.to_string(), content, extra: HashMap::new() }
}

#[test]
fn default_config_is_rules_with_approximation() {
    let c = default_config();
    assert_eq!(c.tiers, vec![Tier::Rules]);
    assert_eq!(c.token_method, TokenMethod::Chars);
    assert_eq!((TIER_RULES, TIER_NLP, TIER_LLM), ("rules", "nlp", "llm"));
}

#[test]
fn boilerplate_text_gets_shorter() {
    let r = compress(ASSISTANT_BOILERPLATE, "assistant", &approx(vec![Tier::Rules])).unwrap();
    assert!(r.text.len() < ASSISTANT_BOILERPLATE.len(), "{:?}", r.text);
    assert!(r.compressed_tokens < r.original_tokens);
    assert_eq!(r.saved_tokens, r.original_tokens - r.compressed_tokens);
    assert!(r.saved_percent > 0 && r.saved_percent <= 100);
}

#[test]
fn opener_and_closer_are_removed() {
    let r = compress("Certainly! Here it is. I hope this helps!", "assistant", &approx(vec![Tier::Rules])).unwrap();
    assert_eq!(r.text, "Here it is.");
}

#[test]
fn text_without_latin_letters_is_unchanged() {
    let text = "Привет, мир!!  ...";
    let r = compress(text, "assistant", &approx(vec![Tier::Rules, Tier::Nlp])).unwrap();
    assert_eq!(r.text, text);
    assert_eq!(r.original_tokens, r.compressed_tokens);
    assert_eq!(r.saved_tokens, 0);
    assert_eq!(r.saved_percent, 0);
}

#[test]
fn code_and_urls_survive_compression() {
    let text = "Certainly! Run `cargo  build` and see https://example.com/a...b then:\n```\nlet  x = 1;\n\n```\nDone!!";
    let r = compress(text, "assistant", &approx(vec![Tier::Rules])).unwrap();
    assert!(r.text.contains("`cargo  build`"), "{:?}", r.text);
    assert!(r.text.contains("https://example.com/a...b"), "{:?}", r.text);
    assert!(r.text.contains("```\nlet  x = 1;\n\n```"), "{:?}", r.text);
    assert!(r.text.ends_with("Done!"), "{:?}", r.text);
}

#[test]
fn llm_tier_fails() {
    let e = compress("Hello there", "user", &approx(vec![Tier::Rules, Tier::Llm])).unwrap_err();
    assert!(e.contains("not yet implemented"), "{}", e);
    assert!(apply_tier("Hello", "user", &Tier::Llm).is_err());
}

#[test]
fn nlp_tier_drops_articles_and_intensifiers() {
    let r = apply_tier("We utilize the repository very often", "user", &Tier::Nlp).unwrap();
    assert_eq!(r, "We use repo often");
}

#[test]
fn chars_estimate_rounds_up_quarter_of_bytes() {
    assert_eq!(estimate_tokens("", &TokenMethod::Chars).unwrap(), 0);
    assert_eq!(estimate_tokens("abcd", &TokenMethod::Chars).unwrap(), 1);
    assert_eq!(estimate_tokens("abcde", &TokenMethod::Chars).unwrap(), 2);
    // "é" is two bytes in UTF-8.
    assert_eq!(estimate_tokens("ééé", &TokenMethod::Chars).unwrap(), 2);
}

#[test]
fn tiktoken_counts_words() {
    assert_eq!(estimate_tokens("hello world", &TokenMethod::Tiktoken).unwrap(), 2);
    assert_eq!(estimate_tokens("", &TokenMethod::Tiktoken).unwrap(), 0);
}

#[test]
fn saved_percent_rounds_half_up() {
    assert_eq!(saved_percent(0, 0), 0);
    assert_eq!(saved_percent(1, 3), 33);
    assert_eq!(saved_percent(2, 3), 67);
    assert_eq!(saved_percent(1, 2), 50);
    assert_eq!(saved_percent(1, 8), 13);
    assert_eq!(saved_percent(5, 5), 100);
}

#[test]
fn mask_replaces_regions_with_numbered_placeholders() {
    let m = mask_protected("a ```x``` b `y` c http://z.io d").unwrap();
    assert_eq!(m.masked, "a \u{0}B0\u{0} b \u{0}B1\u{0} c \u{0}B2\u{0} d");
    assert_eq!(m.blocks, vec!["```x```".to_string(), "`y`".to_string(), "http://z.io".to_string()]);
    assert_eq!(unmask_protected(&m.masked, &m.blocks), "a ```x``` b `y` c http://z.io d");
}

#[test]
fn unmask_drops_placeholders_without_block() {
    let blocks = vec!["X".to_string()];
    assert_eq!(unmask_protected("a\u{0}B0\u{0}b\u{0}B7\u{0}c", &blocks), "aXbc");
    assert_eq!(unmask_protected("\u{0}B\u{0}", &blocks), "\u{0}B\u{0}");
    assert_eq!(unmask_protected("\u{0}B00\u{0}!", &blocks), "X!");
}

#[test]
fn extract_text_only_from_strings() {
    assert_eq!(extract_text(&Some(MessageContent::Text("hi".into()))), Some("hi"));
    assert_eq!(extract_text(&Some(MessageContent::Null)), None);
    assert_eq!(extract_text(&None), None);
    assert_eq!(MessageContent::Text("x".into()).as_text(), Some("x"));
    assert_eq!(MessageContent::Blocks(vec![]).as_text(), None);
}

#[test]
fn history_keeps_structure_and_counts() {
    let msgs = vec![
        msg("system", Some(MessageContent::Text("Certainly! Keep it.".into()))),
        msg("user", Some(MessageContent::Text("Can you help me?".into()))),
        msg("assistant", Some(MessageContent::Text("Certainly! I'd be happy to help.".into()))),
        msg("assistant", Some(MessageContent::Blocks(vec![serde_json::Value::String("block".into())]))),
        msg("user", None),
    ];
    let h = compress_history(msgs, &approx(vec![Tier::Rules])).unwrap();
    assert_eq!(h.messages.len(), 5);
    let roles: Vec<&str> = h.messages.iter().map(|m| m.role.as_str()).collect();
    assert_eq!(roles, vec!["system", "user", "assistant", "assistant", "user"]);
    match &h.messages[0].content {
        Some(MessageContent::Text(s)) => assert_eq!(s, "Certainly! Keep it."),
        _ => panic!("system content changed"),
    }
    assert_eq!(h.messages[0].stats.saved_tokens, 0);
    assert!(matches!(h.messages[3].content, Some(MessageContent::Blocks(_))));
    assert_eq!(h.messages[3].stats.original_tokens, 0);
    assert!(h.messages[4].content.is_none());
    let orig: usize = h.messages.iter().map(|m| m.stats.original_tokens).sum();
    let comp: usize = h.messages.iter().map(|m| m.stats.compressed_tokens).sum();
    assert_eq!(h.stats.total_original_tokens, orig);
    assert_eq!(h.stats.total_compressed_tokens, comp);
    assert_eq!(h.stats.total_saved_tokens, orig - comp);
    assert_eq!(h.stats.total_saved_percent, saved_percent(orig - comp, orig));
}

#[test]
fn history_extra_fields_pass_through() {
    let mut m = msg("user", Some(MessageContent::Text("Hello there".into())));
    m.extra.insert("name".to_string(), serde_json::Value::String("bob".into()));
    let h = compress_history(vec![m], &default_config()).unwrap();
    assert_eq!(h.messages[0].extra.get("name"), Some(&serde_json::Value::String("bob".into())));
}

#[test]
fn history_error_from_llm_tier() {
    let msgs = vec![msg("user", Some(MessageContent::Text("Hello there".into())))];
    assert!(compress_history(msgs, &approx(vec![Tier::Llm])).is_err());
}

#[test]
fn unicode_digit_placeholder_names_block_zero() {
    let blocks = vec!["X".to_string(), "Y".to_string()];
    assert_eq!(unmask_protected("\u{0}B\u{661}\u{0}", &blocks), "X");
    assert_eq!(unmask_protected("\u{0}B1\u{0}", &blocks), "Y");
}

#[test]
fn url_after_inline_code_placeholder_stops_at_it() {
    let m = mask_protected("https://a.io`x`").unwrap();
    assert_eq!(m.masked, "\u{0}B1\u{0}\u{0}B0\u{0}");
    assert_eq!(m.blocks, vec!["`x`".to_string(), "https://a.io".to_string()]);
    assert_eq!(unmask_protected(&m.masked, &m.blocks), "https://a.io`x`");
}

#[test]
fn tier_that_drops_a_url_is_passed_over() {
    let text = "Use it. I hope this helps, see https://a.io";
    let r = compress(text, "assistant", &approx(vec![Tier::Rules])).unwrap();
    assert!(r.text.contains("https://a.io"), "{:?}", r.text);
    assert_eq!(r.text, text);
}

#[test]
fn protected_regions_survive_compression() {
    let text = "Certainly! Run `cargo test` and read https://docs.rs/x first.\n```\nfn main() {}\n```";
    let r = compress(text, "assistant", &approx(vec![Tier::Rules, Tier::Nlp])).unwrap();
    for region in ["`cargo test`", "https://docs.rs/x", "```\nfn main() {}\n```"] {
        assert!(r.text.contains(region), "{:?} lost from {:?}", region, r.text);
    }
}

#[test]
fn trim_removes_unicode_white_space_only() {
    assert_eq!(trim("\u{3000}\u{85} a b\u{2028}\u{a0}\u{202f}"), "a b");
    assert_eq!(trim("\u{200b}x\u{1680}"), "\u{200b}x");
}
