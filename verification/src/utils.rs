//! Choosing the compression configuration from the command line and the
//! configuration file, and the one-line statistics summary.
use vstd::prelude::*;

use crate::settings::{
    is_one_of, opt_view, valid_modes, valid_tokenizers, TerseConfig, DEFAULT_PORT,
};
use crate::text::{
    all_ascii_digits, ascii_digit, chars_of, digits_value, lemma_digits_value_prefix, decimal, i64_decimal, signed_decimal, str_equal, to_owned_string, trim,
    trim_spec, u64_decimal,
};
use crate::types::{CompressConfig, Tier, TokenMethod};

verus! {

/// The command-line value if given, else the configuration's, else the
/// default.
pub open spec fn resolve_spec(
    cli: Option<Seq<char>>,
    config: Option<Seq<char>>,
    default: Seq<char>,
) -> Seq<char> {
    match cli {
        Some(v) => v,
        None => match config {
            Some(v) => v,
            None => default,
        },
    }
}

/// The view of an optional string slice.
pub open spec fn opt_str_view(o: Option<&str>) -> Option<Seq<char>> {
    match o {
        Some(s) => Some(s@),
        None => None,
    }
}

/// The tiers a mode name selects, or the error for an unknown name. The
/// name is read with surrounding whitespace trimmed.
pub open spec fn parse_mode_spec(s: Seq<char>) -> Result<Seq<Tier>, Seq<char>> {
    let t = trim_spec(s);
    if t == "trim"@ {
        Ok(seq![Tier::Rules])
    } else if t == "compress"@ {
        Ok(seq![Tier::Rules, Tier::Nlp])
    } else if t == "rewrite"@ {
        Ok(seq![Tier::Rules, Tier::Nlp, Tier::Llm])
    } else {
        Err("Unknown mode: '"@ + t + "'. Valid values: trim, compress, rewrite"@)
    }
}

/// The token counting method a tokenizer name selects, or the error for an
/// unknown name. The name is read with surrounding whitespace trimmed.
pub open spec fn parse_token_method_spec(s: Seq<char>) -> Result<TokenMethod, Seq<char>> {
    let t = trim_spec(s);
    if t == "approximation"@ {
        Ok(TokenMethod::Chars)
    } else if t == "tiktoken"@ {
        Ok(TokenMethod::Tiktoken)
    } else {
        Err("Unknown tokenizer: '"@ + t + "'. Valid values: tiktoken, approximation"@)
    }
}

/// The configuration file's value when it is one of `valid`; otherwise,
/// as the configuration warning announces, `default`.
pub open spec fn config_choice(
    value: Option<Seq<char>>,
    valid: Seq<Seq<char>>,
    default: Seq<char>,
) -> Seq<char> {
    match value {
        Some(v) => if valid.contains(v) {
            v
        } else {
            default
        },
        None => default,
    }
}

/// The configuration that the mode and tokenizer options select. A
/// command-line value is read as given, and an unknown one is an error (the
/// mode's reported before the tokenizer's); without one, the configuration
/// file's value is used when it is valid, and `trim` or `tiktoken`
/// otherwise.
pub open spec fn make_config_spec(
    mode: Option<Seq<char>>,
    tokenizer: Option<Seq<char>>,
    cfg: TerseConfig,
) -> Result<(Seq<Tier>, TokenMethod), Seq<char>> {
    let m = resolve_spec(mode, Some(config_choice(opt_view(cfg.mode), valid_modes(), "trim"@)), "trim"@);
    let t = resolve_spec(
        tokenizer,
        Some(config_choice(opt_view(cfg.tokenizer), valid_tokenizers(), "tiktoken"@)),
        "tiktoken"@,
    );
    match parse_mode_spec(m) {
        Err(e) => Err(e),
        Ok(tiers) => match parse_token_method_spec(t) {
            Err(e) => Err(e),
            Ok(method) => Ok((tiers, method)),
        },
    }
}

/// Picks the command-line value, else the configuration's, else `default`.
pub fn resolve<'a>(cli: Option<&'a str>, config: Option<&'a str>, default: &'a str) -> (res: &'a str)
    ensures
        res@ == resolve_spec(opt_str_view(cli), opt_str_view(config), default@),
{
    match cli {
        Some(v) => v,
        None => match config {
            Some(v) => v,
            None => default,
        },
    }
}

/// Reads a mode name: `trim`, `compress` or `rewrite`.
pub fn parse_mode(s: &str) -> (res: Result<Vec<Tier>, String>)
    ensures
        match parse_mode_spec(s@) {
            Ok(tiers) => res matches Ok(v) && v@ == tiers,
            Err(e) => res matches Err(err) && err@ == e,
        },
{
    let t = trim(s);
    let ts = t.as_str();
    if str_equal(ts, "trim") {
        let mut v: Vec<Tier> = Vec::new();
        v.push(Tier::Rules);
        assert(v@ =~= seq![Tier::Rules]);
        Ok(v)
    } else if str_equal(ts, "compress") {
        let mut v: Vec<Tier> = Vec::new();
        v.push(Tier::Rules);
        v.push(Tier::Nlp);
        assert(v@ =~= seq![Tier::Rules, Tier::Nlp]);
        Ok(v)
    } else if str_equal(ts, "rewrite") {
        let mut v: Vec<Tier> = Vec::new();
        v.push(Tier::Rules);
        v.push(Tier::Nlp);
        v.push(Tier::Llm);
        assert(v@ =~= seq![Tier::Rules, Tier::Nlp, Tier::Llm]);
        Ok(v)
    } else {
        let mut e = to_owned_string("Unknown mode: '");
        e.append(ts);
        e.append("'. Valid values: trim, compress, rewrite");
        Err(e)
    }
}

/// Reads a tokenizer name: `tiktoken` or `approximation`.
pub fn parse_token_method(s: &str) -> (res: Result<TokenMethod, String>)
    ensures
        match parse_token_method_spec(s@) {
            Ok(m) => res == Ok::<TokenMethod, String>(m),
            Err(e) => res matches Err(err) && err@ == e,
        },
{
    let t = trim(s);
    let ts = t.as_str();
    if str_equal(ts, "approximation") {
        Ok(TokenMethod::Chars)
    } else if str_equal(ts, "tiktoken") {
        Ok(TokenMethod::Tiktoken)
    } else {
        let mut e = to_owned_string("Unknown tokenizer: '");
        e.append(ts);
        e.append("'. Valid values: tiktoken, approximation");
        Err(e)
    }
}

/// The compression configuration that the `--mode` and `--tokenizer`
/// options select over the configuration file.
pub fn make_config(mode: Option<&str>, tokenizer: Option<&str>, cfg: &TerseConfig) -> (res: Result<
    CompressConfig,
    String,
>)
    ensures
        match make_config_spec(opt_str_view(mode), opt_str_view(tokenizer), *cfg) {
            Ok((tiers, method)) => res matches Ok(c) && c.tiers@ == tiers && c.token_method
                == method,
            Err(e) => res matches Err(err) && err@ == e,
        },
{
    let modes: [&str; 3] = ["trim", "compress", "rewrite"];
    let tokenizers: [&str; 2] = ["tiktoken", "approximation"];
    proof {
        assert(crate::text::views(modes@) =~= valid_modes());
        assert(crate::text::views(tokenizers@) =~= valid_tokenizers());
    }
    let file_mode = match &cfg.mode {
        Some(m) => if is_one_of(m.as_str(), &modes) {
            m.as_str()
        } else {
            "trim"
        },
        None => "trim",
    };
    let file_tokenizer = match &cfg.tokenizer {
        Some(t) => if is_one_of(t.as_str(), &tokenizers) {
            t.as_str()
        } else {
            "tiktoken"
        },
        None => "tiktoken",
    };
    let mode_str = resolve(mode, Some(file_mode), "trim");
    let tokens_str = resolve(tokenizer, Some(file_tokenizer), "tiktoken");
    let tiers = parse_mode(mode_str)?;
    let token_method = parse_token_method(tokens_str)?;
    Ok(CompressConfig { tiers, token_method })
}

/// The one-line statistics summary.
pub open spec fn fmt_stats_spec(
    original: nat,
    compressed: nat,
    saved: nat,
    percent: int,
    messages: Option<nat>,
) -> Seq<char> {
    let prefix = match messages {
        Some(n) => decimal(n) + " messages: "@,
        None => Seq::empty(),
    };
    prefix + decimal(original) + "  →  "@ + decimal(compressed) + " tokens  (saved "@ + decimal(
        saved,
    ) + ", "@ + signed_decimal(percent) + "%)"@
}

/// Formats token counts as `"{original}  →  {compressed} tokens  (saved
/// {saved}, {percent}%)"`, after `"{n} messages: "` for a history.
pub fn fmt_stats(
    original: usize,
    compressed: usize,
    saved: usize,
    percent: i64,
    messages: Option<usize>,
) -> (res: String)
    ensures
        res@ == fmt_stats_spec(
            original as nat,
            compressed as nat,
            saved as nat,
            percent as int,
            match messages {
                Some(n) => Some(n as nat),
                None => None,
            },
        ),
{
    let mut out = String::new();
    match messages {
        Some(n) => {
            let d = u64_decimal(n as u64);
            out.append(d.as_str());
            out.append(" messages: ");
        },
        None => {},
    }
    let ghost prefix = out@;
    let o = u64_decimal(original as u64);
    let c = u64_decimal(compressed as u64);
    let s = u64_decimal(saved as u64);
    let p = i64_decimal(percent);
    out.append(o.as_str());
    out.append("  →  ");
    out.append(c.as_str());
    out.append(" tokens  (saved ");
    out.append(s.as_str());
    out.append(", ");
    out.append(p.as_str());
    out.append("%)");
    assert(out@ =~= fmt_stats_spec(
        original as nat,
        compressed as nat,
        saved as nat,
        percent as int,
        match messages {
            Some(n) => Some(n as nat),
            None => None,
        },
    ));
    out
}


/// The port given on the command line, else the configuration's, else the
/// default port.
pub fn resolve_port(arg: Option<u16>, cfg: &TerseConfig) -> (res: u16)
    ensures
        res == match arg {
            Some(p) => p,
            None => match cfg.proxy.port {
                Some(p) => p,
                None => DEFAULT_PORT,
            },
        },
{
    match arg {
        Some(p) => p,
        None => match cfg.proxy.port {
            Some(p) => p,
            None => DEFAULT_PORT,
        },
    }
}

/// What `u32::from_str` reads from `s`: an optional `+` and one or more
/// ASCII digits whose value fits in `u32`.
pub open spec fn parse_u32_spec(s: Seq<char>) -> Option<u32> {
    let ds = unsigned_digits(s);
    if ds.len() > 0 && all_ascii_digits(ds) && digits_value(ds) <= u32::MAX {
        Some(digits_value(ds) as u32)
    } else {
        None
    }
}

/// `s` without a leading `+`.
pub open spec fn unsigned_digits(s: Seq<char>) -> Seq<char> {
    if s.len() > 0 && s[0] == '+' {
        s.drop_first()
    } else {
        s
    }
}

/// Reads a process id from the text of a pid file: surrounding whitespace
/// is ignored and the rest must be a `u32` as `str::parse` reads it.
pub fn parse_pid(content: &str) -> (res: Option<u32>)
    ensures
        res == parse_u32_spec(trim_spec(content@)),
{
    let t = trim(content);
    let cs = chars_of(t.as_str());
    let ghost s = cs@;
    let start: usize = if cs.len() > 0 && cs[0] == '+' {
        1
    } else {
        0
    };
    let ghost ds = unsigned_digits(s);
    assert(ds =~= s.skip(start as int));
    if start >= cs.len() {
        return None;
    }
    let mut v: u32 = 0;
    let mut i: usize = start;
    while i < cs.len()
        invariant
            start <= i <= cs@.len(),
            s == cs@,
            s == trim_spec(content@),
            ds == unsigned_digits(s),
            ds == s.skip(start as int),
            all_ascii_digits(ds.take(i - start)),
            v as nat == digits_value(ds.take(i - start)),
        decreases cs@.len() - i,
    {
        let c = cs[i];
        assert(ds[i - start] == c);
        if !('0' <= c && c <= '9') {
            assert(!all_ascii_digits(ds));
            return None;
        }
        let d: u32 = (c as u32) - ('0' as u32);
        assert(ds.take(i - start + 1).drop_last() =~= ds.take(i - start));
        assert(ds.take(i - start + 1).last() == c);
        assert(digits_value(ds.take(i - start + 1)) == v * 10 + d);
        if v > (u32::MAX - d) / 10 {
            proof {
                assert(v * 10 + d > u32::MAX) by (nonlinear_arith)
                    requires
                        v > (u32::MAX - d) / 10,
                        d <= 9,
                ;
                if all_ascii_digits(ds) {
                    lemma_digits_value_prefix(ds, i - start + 1);
                }
            }
            return None;
        }
        assert(v * 10 + d <= u32::MAX) by (nonlinear_arith)
            requires
                v <= (u32::MAX - d) / 10,
                d <= 9,
        ;
        v = v * 10 + d;
        assert(all_ascii_digits(ds.take(i - start + 1)));
        i = i + 1;
    }
    assert(ds.take(i - start) =~= ds);
    Some(v)
}

} // verus!
