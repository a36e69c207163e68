use terse::settings::{config_warnings, ProxyConfig, TerseConfig};

fn path() -> &'static str {
    "/fake/config.json"
}

#[test]
fn valid_config_no_warnings() {
    let cfg = TerseConfig { mode: Some("trim".into()), tokenizer: Some("tiktoken".into()), proxy: Default::default() };
    assert!(config_warnings(&cfg, path()).is_empty());
}

#[test]
fn invalid_mode_produces_warning() {
    let cfg = TerseConfig { mode: Some("turbo".into()), tokenizer: None, proxy: Default::default() };
    let w = config_warnings(&cfg, path());
    assert_eq!(w.len(), 1);
    assert!(w[0].contains("invalid mode"));
    assert!(w[0].contains("turbo"));
    assert!(w[0].contains("trim, compress, rewrite"));
}

#[test]
fn invalid_tokenizer_produces_warning() {
    let cfg = TerseConfig { mode: None, tokenizer: Some("gpt4".into()), proxy: Default::default() };
    let w = config_warnings(&cfg, path());
    assert_eq!(w.len(), 1);
    assert!(w[0].contains("invalid tokenizer"));
    assert!(w[0].contains("gpt4"));
    assert!(w[0].contains("tiktoken, approximation"));
}

#[test]
fn both_invalid_produces_two_warnings() {
    let cfg = TerseConfig { mode: Some("fast".into()), tokenizer: Some("chars".into()), proxy: Default::default() };
    assert_eq!(config_warnings(&cfg, path()).len(), 2);
}

#[test]
fn none_values_produce_no_warnings() {
    let cfg = TerseConfig { mode: None, tokenizer: None, proxy: Default::default() };
    assert!(config_warnings(&cfg, path()).is_empty());
}

#[test]
fn warning_text_is_exact() {
    let cfg = TerseConfig { mode: Some("turbo".into()), tokenizer: Some("gpt4".into()), proxy: ProxyConfig { port: Some(1) } };
    let w = config_warnings(&cfg, path());
    assert_eq!(
        w[0],
        "terse: config /fake/config.json: invalid mode \"turbo\" — expected one of: trim, compress, rewrite\nUsing default (trim)."
    );
    assert_eq!(
        w[1],
        "terse: config /fake/config.json: invalid tokenizer \"gpt4\" — expected one of: tiktoken, approximation\nUsing default (tiktoken)."
    );
}

#[test]
fn warning_quotes_value_as_debug() {
    let cfg = TerseConfig { mode: Some("a\"b".into()), tokenizer: None, proxy: Default::default() };
    let w = config_warnings(&cfg, path());
    assert!(w[0].contains("invalid mode \"a\\\"b\""));
}

#[test]
fn valid_tokenizer_approximation_no_warning() {
    let cfg = TerseConfig { mode: Some("rewrite".into()), tokenizer: Some("approximation".into()), proxy: Default::default() };
    assert!(config_warnings(&cfg, path()).is_empty());
}
