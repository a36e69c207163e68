//! The user configuration file: its fields and the warnings for values it
//! does not know.
use vstd::prelude::*;

use crate::text::{join, join_spec, str_equal, to_owned_string, views};

verus! {

/// The configuration read from `~/.terse/config.json`.
#[derive(Default, Clone, Debug)]
pub struct TerseConfig {
    /// Compression mode: "trim", "compress", or "rewrite".
    pub mode: Option<String>,
    /// Tokenizer to use: "tiktoken" or "approximation".
    pub tokenizer: Option<String>,
    pub proxy: ProxyConfig,
}

/// The proxy section of the configuration.
#[derive(Default, Clone, Debug)]
pub struct ProxyConfig {
    pub port: Option<u16>,
}

/// The configuration file written when none exists.
pub const DEFAULT_CONFIG_JSON: &'static str = "{\n  \"mode\": \"trim\",\n  \"tokenizer\": \"tiktoken\",\n  \"proxy\": {\n    \"port\": 3847\n  }\n}\n";

/// The port the proxy listens on when neither the command line nor the
/// configuration names one.
pub const DEFAULT_PORT: u16 = 3847;

/// The text of `Debug` for a string: the string in double quotes, with
/// quotes, backslashes and non-printable characters escaped.
pub uninterp spec fn debug_quoted(s: Seq<char>) -> Seq<char>;

/// Printable ASCII other than the double quote and the backslash: the
/// characters that `Debug` leaves as they are.
pub open spec fn debug_plain(s: Seq<char>) -> bool {
    forall|i: int|
        0 <= i < s.len() ==> {
            let c = #[trigger] s[i];
            &&& ' ' <= c <= '~'
            &&& c != '"'
            &&& c != '\\'
        }
}

/// Renders `s` with `{:?}` (`<str as Debug>::fmt`). Claimed: the result is a
/// function of the string alone, and a string of printable ASCII without
/// quotes or backslashes comes back between double quotes, unchanged.
#[verifier::external_body]
fn debug_string(s: &str) -> (res: String)
    ensures
        res@ == debug_quoted(s@),
        debug_plain(s@) ==> res@ == seq!['"'] + s@ + seq!['"'],
{
    format!("{:?}", s)
}

/// How a value shows in a warning: between double quotes when it is plain
/// printable ASCII, otherwise as `Debug` escapes it.
pub open spec fn shown_value(v: Seq<char>) -> Seq<char> {
    if debug_plain(v) {
        seq!['"'] + v + seq!['"']
    } else {
        debug_quoted(v)
    }
}

/// The modes the configuration accepts.
pub open spec fn valid_modes() -> Seq<Seq<char>> {
    seq!["trim"@, "compress"@, "rewrite"@]
}

/// The tokenizers the configuration accepts.
pub open spec fn valid_tokenizers() -> Seq<Seq<char>> {
    seq!["tiktoken"@, "approximation"@]
}

/// The warning for a value of `field` that is not one of `valid`.
pub open spec fn warning_spec(
    path: Seq<char>,
    field: Seq<char>,
    value: Seq<char>,
    valid: Seq<Seq<char>>,
    fallback: Seq<char>,
) -> Seq<char> {
    "terse: config "@ + path + ": invalid "@ + field + " "@ + shown_value(value)
        + " — expected one of: "@ + join_spec(valid, ", "@) + "\nUsing default ("@ + fallback
        + ")."@
}

/// The warnings for the mode and the tokenizer of a configuration read from
/// `path`, in that order: one for each that is set to an unknown value.
pub open spec fn warnings_spec(
    mode: Option<Seq<char>>,
    tokenizer: Option<Seq<char>>,
    path: Seq<char>,
) -> Seq<Seq<char>> {
    let m = match mode {
        Some(v) if !valid_modes().contains(v) => seq![
            warning_spec(path, "mode"@, v, valid_modes(), "trim"@),
        ],
        _ => Seq::empty(),
    };
    let t = match tokenizer {
        Some(v) if !valid_tokenizers().contains(v) => seq![
            warning_spec(path, "tokenizer"@, v, valid_tokenizers(), "tiktoken"@),
        ],
        _ => Seq::empty(),
    };
    m + t
}

/// The view of an optional string.
pub open spec fn opt_view(o: Option<String>) -> Option<Seq<char>> {
    match o {
        Some(s) => Some(s@),
        None => None,
    }
}

/// Whether `s` is one of `valid`.
pub(crate) fn is_one_of(s: &str, valid: &[&str]) -> (res: bool)
    ensures
        res == views(valid@).contains(s@),
{
    let mut i: usize = 0;
    while i < valid.len()
        invariant
            0 <= i <= valid@.len(),
            forall|j: int| 0 <= j < i ==> valid@[j]@ != s@,
        decreases valid@.len() - i,
    {
        if str_equal(valid[i], s) {
            assert(views(valid@)[i as int] == s@);
            return true;
        }
        i = i + 1;
    }
    proof {
        if views(valid@).contains(s@) {
            let j = choose|j: int| 0 <= j < views(valid@).len() && views(valid@)[j] == s@;
            assert(valid@[j]@ == s@);
        }
    }
    false
}

/// Builds the warning for `value` of `field`.
fn warning(path: &str, field: &str, value: &str, valid: &[&str], fallback: &str) -> (res: String)
    ensures
        res@ == warning_spec(path@, field@, value@, views(valid@), fallback@),
{
    let mut w = to_owned_string("terse: config ");
    w.append(path);
    w.append(": invalid ");
    w.append(field);
    w.append(" ");
    let q = debug_string(value);
    w.append(q.as_str());
    w.append(" — expected one of: ");
    let list = join(valid, ", ");
    w.append(list.as_str());
    w.append("\nUsing default (");
    w.append(fallback);
    w.append(").");
    proof {
        reveal_strlit("terse: config ");
        reveal_strlit(": invalid ");
        reveal_strlit(" ");
        reveal_strlit(" — expected one of: ");
        reveal_strlit(", ");
        reveal_strlit("\nUsing default (");
        reveal_strlit(").");
    }
    assert(w@ =~= warning_spec(path@, field@, value@, views(valid@), fallback@));
    w
}

/// The warnings for unknown values in `cfg`, read from the file at `path`.
pub fn config_warnings(cfg: &TerseConfig, path: &str) -> (res: Vec<String>)
    ensures
        res@.map_values(|w: String| w@) == warnings_spec(
            opt_view(cfg.mode),
            opt_view(cfg.tokenizer),
            path@,
        ),
{
    let modes: [&str; 3] = ["trim", "compress", "rewrite"];
    let tokenizers: [&str; 2] = ["tiktoken", "approximation"];
    assert(views(modes@) =~= valid_modes());
    assert(views(tokenizers@) =~= valid_tokenizers());
    let mut warnings: Vec<String> = Vec::new();
    if let Some(mode) = &cfg.mode {
        if !is_one_of(mode.as_str(), &modes) {
            let w = warning(path, "mode", mode.as_str(), &modes, "trim");
            warnings.push(w);
        }
    }
    if let Some(tokenizer) = &cfg.tokenizer {
        if !is_one_of(tokenizer.as_str(), &tokenizers) {
            let w = warning(path, "tokenizer", tokenizer.as_str(), &tokenizers, "tiktoken");
            warnings.push(w);
        }
    }
    proof {
        let spec = warnings_spec(opt_view(cfg.mode), opt_view(cfg.tokenizer), path@);
        assert(warnings@.map_values(|w: String| w@) =~= spec);
    }
    warnings
}

} // verus!
