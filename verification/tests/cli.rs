use terse::banner::banner;
use terse::settings::{ProxyConfig, TerseConfig};
use terse::utils::{fmt_stats, make_config, parse_mode, parse_pid, parse_token_method, resolve, resolve_port};
use terse::{Tier, TokenMethod};

fn cfg(mode: Option<&str>, tokenizer: Option<&str>, port: Option<u16>) -> TerseConfig {
    TerseConfig {
        mode: mode.map(|s| s.to_string()),
        tokenizer: tokenizer.map(|s| s.to_string()),
        proxy: ProxyConfig { port },
    }
}

#[test]
fn modes_select_tiers() {
    assert_eq!(parse_mode("trim").unwrap(), vec![Tier::Rules]);
    assert_eq!(parse_mode(" compress\n").unwrap(), vec![Tier::Rules, Tier::Nlp]);
    assert_eq!(parse_mode("rewrite").unwrap(), vec![Tier::Rules, Tier::Nlp, Tier::Llm]);
    assert_eq!(
        parse_mode(" turbo ").unwrap_err(),
        "Unknown mode: 'turbo'. Valid values: trim, compress, rewrite"
    );
}

#[test]
fn tokenizers_select_methods() {
    assert_eq!(parse_token_method("approximation").unwrap(), TokenMethod::Chars);
    assert_eq!(parse_token_method("tiktoken ").unwrap(), TokenMethod::Tiktoken);
    assert_eq!(
        parse_token_method("magic").unwrap_err(),
        "Unknown tokenizer: 'magic'. Valid values: tiktoken, approximation"
    );
}

#[test]
fn command_line_wins_over_config_and_default() {
    assert_eq!(resolve(Some("a"), Some("b"), "c"), "a");
    assert_eq!(resolve(None, Some("b"), "c"), "b");
    assert_eq!(resolve(None, None, "c"), "c");
    let c = make_config(None, None, &cfg(None, None, None)).unwrap();
    assert_eq!(c.tiers, vec![Tier::Rules]);
    assert_eq!(c.token_method, TokenMethod::Tiktoken);
    let c = make_config(None, Some("approximation"), &cfg(Some("compress"), Some("tiktoken"), None)).unwrap();
    assert_eq!(c.tiers, vec![Tier::Rules, Tier::Nlp]);
    assert_eq!(c.token_method, TokenMethod::Chars);
    let c = make_config(Some("rewrite"), None, &cfg(Some("trim"), None, None)).unwrap();
    assert_eq!(c.tiers.len(), 3);
}

#[test]
fn bad_mode_is_reported_before_bad_tokenizer() {
    let e = make_config(Some("turbo"), Some("magic"), &cfg(None, None, None)).unwrap_err();
    assert!(e.starts_with("Unknown mode"), "{}", e);
    let e = make_config(None, Some("gpt4"), &cfg(None, None, None)).unwrap_err();
    assert!(e.starts_with("Unknown tokenizer: 'gpt4'"), "{}", e);
}

#[test]
fn invalid_config_values_fall_back_to_defaults() {
    let c = make_config(None, None, &cfg(Some("turbo"), Some("gpt4"), None)).unwrap();
    assert_eq!(c.tiers, vec![Tier::Rules]);
    assert_eq!(c.token_method, TokenMethod::Tiktoken);
    let c = make_config(None, None, &cfg(Some(" compress"), Some("approximation"), None)).unwrap();
    assert_eq!(c.tiers, vec![Tier::Rules]);
    assert_eq!(c.token_method, TokenMethod::Chars);
    let e = make_config(Some("turbo"), None, &cfg(Some("compress"), None, None)).unwrap_err();
    assert!(e.contains("Unknown mode"), "{}", e);
}

#[test]
fn compress_invalid_mode_fails() {
    let e = make_config(Some("turbo"), Some("approximation"), &cfg(None, None, None)).unwrap_err();
    assert!(e.contains("Unknown mode"), "{}", e);
}

#[test]
fn compress_invalid_tokenizer_fails() {
    let e = make_config(None, Some("magic"), &cfg(None, None, None)).unwrap_err();
    assert!(e.contains("Unknown tokenizer"), "{}", e);
}

#[test]
fn compress_with_mode_flag() {
    let c = make_config(Some("trim"), Some("approximation"), &cfg(None, None, None)).unwrap();
    assert_eq!(c.tiers, vec![Tier::Rules]);
    assert_eq!(c.token_method, TokenMethod::Chars);
}

#[test]
fn no_args_shows_banner_and_help() {
    assert!(banner("0.1.0").contains("T  ·  E  ·  R  ·  S  ·  E"));
}

#[test]
fn ports_resolve_in_order() {
    assert_eq!(resolve_port(Some(1), &cfg(None, None, Some(2))), 1);
    assert_eq!(resolve_port(None, &cfg(None, None, Some(2))), 2);
    assert_eq!(resolve_port(None, &cfg(None, None, None)), 3847);
}

#[test]
fn stats_line_format() {
    assert_eq!(fmt_stats(30, 12, 18, 60, None), "30  →  12 tokens  (saved 18, 60%)");
    assert_eq!(fmt_stats(100, 100, 0, 0, Some(3)), "3 messages: 100  →  100 tokens  (saved 0, 0%)");
    assert_eq!(fmt_stats(0, 0, 0, -5, None), "0  →  0 tokens  (saved 0, -5%)");
}

#[test]
fn pid_files_are_read_like_str_parse() {
    assert_eq!(parse_pid("1234\n"), Some(1234));
    assert_eq!(parse_pid("  +42 "), Some(42));
    assert_eq!(parse_pid("4294967295"), Some(u32::MAX));
    assert_eq!(parse_pid("4294967296"), None);
    assert_eq!(parse_pid("12a"), None);
    assert_eq!(parse_pid(""), None);
    assert_eq!(parse_pid("+"), None);
    assert_eq!(parse_pid("-1"), None);
    for s in ["0", "007", "99999", " 12 ", "+0"] {
        assert_eq!(parse_pid(s), s.trim().parse::<u32>().ok());
    }
}

#[test]
fn banner_frames_title_and_version() {
    let b = banner("1.2.3");
    let lines: Vec<&str> = b.lines().collect();
    assert_eq!(lines.len(), 7);
    assert!(b.contains("T  ·  E  ·  R  ·  S  ·  E"));
    assert!(b.contains("v1.2.3"));
    assert!(lines[0].contains("┏") && lines[6].contains("┛"));
    let blank = format!("\x1b[38;5;45m┃\x1b[0m{}\x1b[38;5;45m┃\x1b[0m", " ".repeat(46));
    assert_eq!(lines[1], blank);
    let title = format!(
        "\x1b[38;5;45m┃\x1b[0m            \x1b[1;38;5;231mT  ·  E  ·  R  ·  S  ·  E\x1b[0m{}\x1b[38;5;45m┃\x1b[0m",
        " ".repeat(9)
    );
    assert_eq!(lines[2], title);
    let version = format!(
        "\x1b[38;5;45m┃\x1b[0m{}\x1b[2;38;5;250mv1.2.3\x1b[0m{}{}\x1b[38;5;45m┃\x1b[0m",
        " ".repeat(20),
        " ".repeat(17),
        " ".repeat(3)
    );
    assert_eq!(lines[4], version);
    assert!(b.ends_with("\n"));
}
