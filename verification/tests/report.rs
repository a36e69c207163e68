use std::collections::HashMap;

use terse::report::{
    compress_text_output, config_report, history_diff, history_stats_line, history_text,
    run_diff, run_stats, text_diff, text_stats_line, trim_trailing_newlines, Input,
};
use terse::settings::{ProxyConfig, TerseConfig};
use terse::types::{HistoryResult, HistoryStats, MessageStats, MessageWithStats};
use terse::{CompressConfig, CompressResult, Message, MessageContent, Tier, TokenMethod};

fn approx() -> CompressConfig {
    CompressConfig { tiers: vec![Tier::Rules], token_method: TokenMethod::Chars }
}

fn mws(role: &str, content: Option<MessageContent>, o: usize, c: usize, p: i64) -> MessageWithStats {
    MessageWithStats {
        role: role.into(),
        content,
        stats: MessageStats { original_tokens: o, compressed_tokens: c, saved_tokens: o - c, saved_percent: p },
        extra: HashMap::new(),
    }
}

fn history() -> HistoryResult {
    HistoryResult {
        messages: vec![
            mws("user", Some(MessageContent::Text("hi".into())), 1, 1, 0),
            mws("assistant", Some(MessageContent::Null), 0, 0, 0),
        ],
        stats: HistoryStats { total_original_tokens: 1, total_compressed_tokens: 1, total_saved_tokens: 0, total_saved_percent: 0 },
    }
}

#[test]
fn trailing_newlines_are_stripped() {
    assert_eq!(trim_trailing_newlines("a\n\n"), "a");
    assert_eq!(trim_trailing_newlines("a\nb"), "a\nb");
    assert_eq!(trim_trailing_newlines("\n"), "");
}

#[test]
fn compressed_text_keeps_final_newline() {
    let (out, r) = compress_text_output("Certainly! Here it is.\n\n", "assistant", &approx()).unwrap();
    assert_eq!(out, "Here it is.\n");
    assert_eq!(r.text, "Here it is.");
    let (out, _) = compress_text_output("Plain text", "assistant", &approx()).unwrap();
    assert_eq!(out, "Plain text");
}

#[test]
fn history_as_lines() {
    assert_eq!(history_text(&history()), "user: hi\nassistant: \n");
    assert_eq!(history_stats_line(&history()), "2 messages: 1  →  1 tokens  (saved 0, 0%)");
}

#[test]
fn diffs() {
    let r = CompressResult { text: "B".into(), original_tokens: 10, compressed_tokens: 4, saved_tokens: 6, saved_percent: 60 };
    assert_eq!(text_diff("A", &r), "--- original (10 tokens)\nA\n+++ compressed (4 tokens, -60%)\nB\n");
    assert_eq!(text_stats_line(&r), "10  →  4 tokens  (saved 6, 60%)");
    assert_eq!(
        history_diff(&history()),
        "--- [0] user (1 tokens)\n+++ [0] user (1 tokens, -0%)\nhi\n\n--- [1] assistant (0 tokens)\n+++ [1] assistant (0 tokens, -0%)\n\n"
    );
}

#[test]
fn config_shows_effective_values() {
    let cfg = TerseConfig { mode: None, tokenizer: Some("approximation".into()), proxy: ProxyConfig { port: None } };
    assert_eq!(
        config_report(&cfg, "/home/u/.terse/config.json"),
        "mode:        trim\ntokenizer:   approximation\nproxy.port:  3847\n\nconfig file:  /home/u/.terse/config.json\n"
    );
}

#[test]
fn stats_of_text_and_history() {
    let line = run_stats(Input::Text("Certainly! Here it is.\n".into()), "assistant", &approx()).unwrap();
    // "Certainly! Here it is." is 22 bytes (6 tokens); "Here it is." is 11 bytes (3 tokens).
    assert_eq!(line, "6  →  3 tokens  (saved 3, 50%)");
    let msgs = vec![Message { role: "system".into(), content: Some(MessageContent::Text("abcd".into())), extra: HashMap::new() }];
    let line = run_stats(Input::History(msgs), "assistant", &approx()).unwrap();
    assert_eq!(line, "1 messages: 1  →  1 tokens  (saved 0, 0%)");
}

#[test]
fn diff_of_text_and_history() {
    let (out, line) = run_diff(Input::Text("Certainly! Here it is.\n\n".into()), "assistant", &approx()).unwrap();
    assert_eq!(out, "--- original (6 tokens)\nCertainly! Here it is.\n+++ compressed (3 tokens, -50%)\nHere it is.\n");
    assert_eq!(line, "6  →  3 tokens  (saved 3, 50%)");
    let msgs = vec![Message { role: "tool".into(), content: None, extra: HashMap::new() }];
    let (out, line) = run_diff(Input::History(msgs), "assistant", &approx()).unwrap();
    assert_eq!(out, "--- [0] tool (0 tokens)\n+++ [0] tool (0 tokens, -0%)\n\n");
    assert_eq!(line, "1 messages: 0  →  0 tokens  (saved 0, 0%)");
    let bad = CompressConfig { tiers: vec![Tier::Llm], token_method: TokenMethod::Chars };
    assert!(run_diff(Input::Text("Hello there".into()), "user", &bad).is_err());
}

const VERBOSE_TEXT: &str = "Certainly! I'd be happy to help you with that. In order to fix this issue, you should basically take into consideration the edge cases. I hope this helps!";

#[test]
fn compress_text_via_stdin() {
    let (out, _) = compress_text_output(VERBOSE_TEXT, "assistant", &approx()).unwrap();
    assert!(!out.is_empty());
}

#[test]
fn compress_text_is_shorter_than_input() {
    let input = "Certainly! I'd be happy to help you with that. Here is the information you requested. I hope this helps! Let me know if you have any other questions.";
    let (out, _) = compress_text_output(input, "assistant", &approx()).unwrap();
    assert!(out.len() < input.len(), "compressed ({} chars) should be shorter than input ({} chars)", out.len(), input.len());
}

#[test]
fn compress_with_stats_flag_prints_to_stderr() {
    let (_, r) = compress_text_output(VERBOSE_TEXT, "assistant", &approx()).unwrap();
    let line = text_stats_line(&r);
    assert!(line.contains("→") && line.contains("saved"));
}

#[test]
fn compress_history_preserves_structure() {
    let msgs = vec![
        Message { role: "user".into(), content: Some(MessageContent::Text("Can you help me?".into())), extra: HashMap::new() },
        Message { role: "assistant".into(), content: Some(MessageContent::Text("Certainly! I'd be happy to help.".into())), extra: HashMap::new() },
    ];
    let h = terse::compress_history(msgs, &approx()).unwrap();
    assert_eq!(h.messages.len(), 2);
    assert_eq!(h.messages[0].role, "user");
    assert_eq!(h.messages[1].role, "assistant");
}

#[test]
fn stats_text_via_stdin() {
    assert!(run_stats(Input::Text(VERBOSE_TEXT.into()), "assistant", &approx()).unwrap().contains("saved"));
}

#[test]
fn stats_history_via_stdin() {
    let msgs = vec![Message { role: "user".into(), content: Some(MessageContent::Text("Hello there".into())), extra: HashMap::new() }];
    assert!(run_stats(Input::History(msgs), "assistant", &approx()).unwrap().contains("messages"));
}

#[test]
fn diff_text_via_stdin() {
    let (out, _) = run_diff(Input::Text(VERBOSE_TEXT.into()), "assistant", &approx()).unwrap();
    assert!(out.contains("--- original") && out.contains("+++ compressed"));
}

#[test]
fn diff_history_via_stdin() {
    let msgs = vec![Message { role: "user".into(), content: Some(MessageContent::Text("Hello there".into())), extra: HashMap::new() }];
    let (out, _) = run_diff(Input::History(msgs), "assistant", &approx()).unwrap();
    assert!(out.contains("---") && out.contains("+++"));
}
