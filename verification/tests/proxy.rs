use std::collections::HashMap;

use serde_json::Value;
use terse::config::default_config;
use terse::proxy::{
    compress_request, flatten_content_blocks, forwards_request_header, forwards_response_header,
    is_messages_request, record_call, session_totals, upstream_url, CallEntry, CallRecord,
    ContentBlock, ProxyCallStats, RequestContent, RequestMessage, SessionDoc, SessionMeta,
};

fn block(kind: Option<&str>, text: Option<&str>) -> ContentBlock {
    ContentBlock { kind: kind.map(|s| s.to_string()), text: text.map(|s| s.to_string()), raw: Value::Null }
}

fn text_msg(role: &str, content: &str) -> RequestMessage {
    RequestMessage { role: role.into(), content: Some(RequestContent::Text(content.into())), extra: HashMap::new() }
}

fn text_of(m: &RequestMessage) -> &str {
    match &m.content {
        Some(RequestContent::Text(s)) => s.as_str(),
        _ => panic!("not text content"),
    }
}

#[test]
fn text_blocks_are_joined() {
    let blocks = vec![
        block(Some("text"), Some("Hello")),
        block(Some("image"), Some("ignored")),
        block(Some("text"), None),
        block(None, Some("no type")),
        block(Some("text"), Some("there")),
    ];
    assert_eq!(flatten_content_blocks(&blocks).as_deref(), Some("Hello\nthere"));
    assert_eq!(flatten_content_blocks(&[block(Some("image"), None)]), None);
    assert_eq!(flatten_content_blocks(&[]), None);
    assert_eq!(flatten_content_blocks(&[block(Some("text"), Some(""))]), None);
    assert_eq!(
        flatten_content_blocks(&[block(Some("text"), Some("")), block(Some("text"), Some(""))]).as_deref(),
        Some("\n")
    );
}

#[test]
fn last_user_message_preserved_verbatim() {
    let boilerplate = "Certainly! I'd be happy to help you with that. Here is a detailed explanation of the topic you asked about.";
    let current = "What is the meaning of life?";
    let msgs = vec![text_msg("user", "Hello"), text_msg("assistant", boilerplate), text_msg("user", current)];
    let (out, _) = compress_request(msgs, &default_config()).unwrap();
    assert_eq!(out.len(), 3);
    assert_eq!(out[2].role, "user");
    assert_eq!(text_of(&out[2]), current);
}

#[test]
fn prior_assistant_messages_compressed() {
    let boilerplate = "Certainly! I'd be happy to help you with that. Here is a detailed explanation of the topic you asked about. I hope this helps!";
    let msgs = vec![text_msg("user", "Hello"), text_msg("assistant", boilerplate), text_msg("user", "Current question")];
    let (out, stats) = compress_request(msgs, &default_config()).unwrap();
    assert!(text_of(&out[1]).len() < boilerplate.len(), "expected assistant message to be compressed: {:?}", text_of(&out[1]));
    assert!(stats.saved_tokens > 0);
    assert_eq!(stats.messages, 3);
}

#[test]
fn last_non_user_message_is_compressed() {
    let boilerplate = "Certainly! I'd be happy to help you with that. Here is a detailed explanation. I hope this helps!";
    let msgs = vec![text_msg("user", "Hello"), text_msg("assistant", boilerplate)];
    let (out, _) = compress_request(msgs, &default_config()).unwrap();
    assert!(text_of(&out[1]).len() < boilerplate.len(), "expected last assistant message to be compressed: {:?}", text_of(&out[1]));
}

#[test]
fn block_format_content_flattened_for_compression() {
    let blocks = vec![ContentBlock {
        kind: Some("text".into()),
        text: Some("Hello there".into()),
        raw: Value::String("block".into()),
    }];
    let msgs = vec![
        RequestMessage { role: "user".into(), content: Some(RequestContent::Blocks(blocks)), extra: HashMap::new() },
        text_msg("assistant", "Certainly! I'd be happy to help."),
        text_msg("user", "Current question"),
    ];
    let (out, _) = compress_request(msgs, &default_config()).unwrap();
    assert_eq!(text_of(&out[0]), "There");
    assert_eq!(text_of(&out[2]), "Current question");
}

#[test]
fn current_prompt_in_blocks_is_sent_as_it_came() {
    let blocks = vec![
        ContentBlock { kind: Some("text".into()), text: Some("Certainly! Look".into()), raw: Value::String("t".into()) },
        ContentBlock { kind: Some("image".into()), text: None, raw: Value::String("img".into()) },
    ];
    let mut extra = HashMap::new();
    extra.insert("id".to_string(), Value::String("x".into()));
    let msgs = vec![
        text_msg("assistant", "Sure! Done."),
        RequestMessage { role: "user".into(), content: Some(RequestContent::Blocks(blocks)), extra },
    ];
    let (out, stats) = compress_request(msgs, &default_config()).unwrap();
    match &out[1].content {
        Some(RequestContent::Blocks(b)) => {
            let raws: Vec<&Value> = b.iter().map(|b| &b.raw).collect();
            assert_eq!(raws, vec![&Value::String("t".into()), &Value::String("img".into())]);
        }
        _ => panic!("current prompt was changed"),
    }
    assert_eq!(out[1].extra.get("id"), Some(&Value::String("x".into())));
    assert_eq!(text_of(&out[0]), "Done.");
    assert_eq!(stats.messages, 2);
}

#[test]
fn history_without_text_is_forwarded_as_it_was() {
    let msgs = vec![
        RequestMessage { role: "assistant".into(), content: None, extra: HashMap::new() },
        RequestMessage {
            role: "assistant".into(),
            content: Some(RequestContent::Blocks(vec![block(Some("image"), None)])),
            extra: HashMap::new(),
        },
        text_msg("system", "Certainly! Keep."),
    ];
    let (out, stats) = compress_request(msgs, &default_config()).unwrap();
    assert!(matches!(out[0].content, Some(RequestContent::Null)));
    assert!(matches!(out[1].content, Some(RequestContent::Blocks(_))));
    assert_eq!(text_of(&out[2]), "Certainly! Keep.");
    assert_eq!(stats.saved_tokens, 0);
    let bad = terse::CompressConfig { tiers: vec![terse::Tier::Llm], token_method: terse::TokenMethod::Chars };
    assert!(compress_request(vec![text_msg("assistant", "Hi there"), text_msg("user", "q")], &bad).is_err());
    assert!(compress_request(vec![text_msg("user", "only the prompt")], &bad).is_ok());
}

fn dummy_stats() -> ProxyCallStats {
    ProxyCallStats { messages: 3, original_tokens: 100, compressed_tokens: 70, saved_tokens: 30, saved_percent: 30 }
}

#[test]
fn session_file_includes_terse_version() {
    let d = record_call(None, "sess-1", None, "9.9.9", &dummy_stats(), 5).unwrap();
    match &d.meta {
        SessionMeta::New { session_id, terse_version, client_session_id } => {
            assert_eq!(session_id, "sess-1");
            assert_eq!(terse_version, "9.9.9");
            assert!(client_session_id.is_none());
        }
        _ => panic!("new file without metadata"),
    }
    let t = d.total.unwrap();
    assert_eq!((t.calls, t.original_tokens, t.compressed_tokens, t.saved_tokens, t.saved_percent), (1, 100, 70, 30, 30));
}

#[test]
fn session_file_metadata_not_overwritten_on_subsequent_calls() {
    let first = record_call(None, "sess-4", Some("original-id"), "1", &dummy_stats(), 1).unwrap();
    let second = record_call(Some(first), "sess-4", Some("other-id"), "1", &dummy_stats(), 2).unwrap();
    match &second.meta {
        SessionMeta::New { client_session_id, .. } => assert_eq!(client_session_id.as_deref(), Some("original-id")),
        _ => panic!("metadata replaced"),
    }
    assert_eq!(second.total.unwrap().calls, 2);
    assert_eq!(second.calls.as_ref().unwrap().len(), 2);
}

#[test]
fn session_file_keeps_stored_calls() {
    let mut fields = HashMap::new();
    fields.insert("session_id".to_string(), Value::String("s".into()));
    let doc = SessionDoc {
        meta: SessionMeta::Kept(fields),
        calls: Some(vec![CallEntry::Stored { original_tokens: Some(50), compressed_tokens: None, raw: Value::Null }]),
        total: None,
    };
    let d = record_call(Some(doc), "other", None, "1", &dummy_stats(), 3).unwrap();
    let t = d.total.unwrap();
    assert_eq!((t.calls, t.original_tokens, t.compressed_tokens, t.saved_tokens, t.saved_percent), (2, 150, 70, 80, 53));
    let no_list = SessionDoc { meta: SessionMeta::Kept(HashMap::new()), calls: None, total: None };
    let d = record_call(Some(no_list), "x", None, "1", &dummy_stats(), 3).unwrap();
    assert!(d.calls.is_none());
    assert_eq!(d.total.unwrap().calls, 0);
    let big = SessionDoc {
        meta: SessionMeta::Kept(HashMap::new()),
        calls: Some(vec![CallEntry::Stored { original_tokens: Some(u64::MAX), compressed_tokens: None, raw: Value::Null }]),
        total: None,
    };
    assert!(record_call(Some(big), "x", None, "1", &dummy_stats(), 3).is_none());
}

#[test]
fn session_totals_add_up() {
    let calls = vec![
        CallRecord { original_tokens: Some(100), compressed_tokens: Some(70) },
        CallRecord { original_tokens: Some(50), compressed_tokens: None },
        CallRecord { original_tokens: None, compressed_tokens: Some(10) },
    ];
    let t = session_totals(&calls).unwrap();
    assert_eq!(t.calls, 3);
    assert_eq!(t.original_tokens, 150);
    assert_eq!(t.compressed_tokens, 80);
    assert_eq!(t.saved_tokens, 70);
    assert_eq!(t.saved_percent, 46);
    let t = session_totals(&[]).unwrap();
    assert_eq!((t.calls, t.original_tokens, t.saved_percent), (0, 0, 0));
    let t = session_totals(&[CallRecord { original_tokens: Some(10), compressed_tokens: Some(30) }]).unwrap();
    assert_eq!((t.saved_tokens, t.saved_percent), (0, 0));
    let big = vec![
        CallRecord { original_tokens: Some(u64::MAX), compressed_tokens: Some(0) },
        CallRecord { original_tokens: Some(1), compressed_tokens: Some(0) },
    ];
    assert!(session_totals(&big).is_none());
}

#[test]
fn only_message_posts_are_compressed() {
    assert!(is_messages_request("POST", "/v1/messages"));
    assert!(!is_messages_request("GET", "/v1/messages"));
    assert!(!is_messages_request("POST", "/v1/messages/count_tokens"));
}

#[test]
fn hop_headers_are_not_forwarded() {
    assert!(!forwards_request_header("host"));
    assert!(!forwards_request_header("content-length"));
    assert!(!forwards_request_header("transfer-encoding"));
    assert!(forwards_request_header("x-api-key"));
    assert!(!forwards_response_header("transfer-encoding"));
    assert!(forwards_response_header("content-type"));
}

#[test]
fn upstream_keeps_path_and_query() {
    assert_eq!(upstream_url(Some("/v1/messages?beta=true")), "https://api.anthropic.com/v1/messages?beta=true");
    assert_eq!(upstream_url(None), "https://api.anthropic.com");
}

#[test]
fn other_content_is_compressed_as_text_in_history_and_kept_as_current_prompt() {
    let other = |text: &str, raw: Value| RequestMessage {
        role: "user".into(),
        content: Some(RequestContent::Other { text: text.into(), raw }),
        extra: HashMap::new(),
    };
    let mut obj = serde_json::Map::new();
    obj.insert("a".into(), Value::from(1));
    let msgs = vec![other("{\"a\":1}", Value::Object(obj)), other("42", Value::from(42))];
    let (out, stats) = compress_request(msgs, &default_config()).unwrap();
    assert_eq!(text_of(&out[0]), "{\"a\":1}");
    match &out[1].content {
        Some(RequestContent::Other { text, raw }) => {
            assert_eq!(text, "42");
            assert_eq!(*raw, Value::from(42));
        }
        _ => panic!("current prompt changed"),
    }
    assert_eq!(stats.messages, 2);
}
