//! The framed title shown when the program runs without a command.
use vstd::prelude::*;

use crate::text::to_owned_string;

verus! {

/// The width inside the frame, in visible characters.
pub const INNER_WIDTH: usize = 46;

/// Resets colours.
pub const RESET: &'static str = "\x1b[0m";

/// The frame colour.
pub const FRAME: &'static str = "\x1b[38;5;45m";

/// The title colour.
pub const TITLE: &'static str = "\x1b[1;38;5;231m";

/// The colour of the version line.
pub const SUBTLE: &'static str = "\x1b[2;38;5;250m";

/// The top edge of the frame.
pub const TOP: &'static str = "\x1b[38;5;45m┏━━━━━━━━━━━━━━━━━━━━━━━━━━━━━━━━━━━━━━━━━━━━━━┓\x1b[0m\n";

/// The bottom edge of the frame.
pub const BOTTOM: &'static str = "\x1b[38;5;45m┗━━━━━━━━━━━━━━━━━━━━━━━━━━━━━━━━━━━━━━━━━━━━━━┛\x1b[0m\n";

/// The title as it is seen.
pub const TITLE_PLAIN: &'static str = "            T  ·  E  ·  R  ·  S  ·  E";

/// The title letters.
pub const TITLE_TEXT: &'static str = "T  ·  E  ·  R  ·  S  ·  E";

/// `n` spaces.
pub open spec fn spaces(n: nat) -> Seq<char> {
    Seq::new(n, |i: int| ' ')
}

/// `n - k` when `k < n`, else 0.
pub open spec fn pad_spec(n: nat, k: nat) -> nat {
    if k < n {
        (n - k) as nat
    } else {
        0
    }
}

/// One framed line: `content` followed by spaces up to the inner width,
/// given the number of characters of `content` that are seen.
pub open spec fn line_spec(content: Seq<char>, visible: nat) -> Seq<char> {
    FRAME@ + "┃"@ + RESET@ + content + spaces(pad_spec(INNER_WIDTH as nat, visible)) + FRAME@
        + "┃"@ + RESET@ + "\n"@
}

/// The title line: twelve spaces, then the coloured letters.
pub open spec fn title_colored() -> Seq<char> {
    spaces(12) + TITLE@ + TITLE_TEXT@ + RESET@
}

/// The version line, coloured.
pub open spec fn version_colored(version: Seq<char>) -> Seq<char> {
    spaces(20) + SUBTLE@ + "v"@ + version + RESET@ + spaces(17)
}

/// The banner for `version`: the frame's top edge, a blank line, the
/// title, a blank line, the version, a blank line and the bottom edge.
pub open spec fn banner_spec(version: Seq<char>) -> Seq<char> {
    let blank = line_spec(spaces(INNER_WIDTH as nat), INNER_WIDTH as nat);
    TOP@ + blank + line_spec(title_colored(), TITLE_PLAIN@.len()) + blank + line_spec(
        version_colored(version),
        38 + version.len(),
    ) + blank + BOTTOM@
}

/// Appends `n` spaces to `out`.
fn push_spaces(out: &mut String, n: usize)
    ensures
        final(out)@ == old(out)@ + spaces(n as nat),
{
    let mut i: usize = 0;
    while i < n
        invariant
            0 <= i <= n,
            out@ == old(out)@ + spaces(i as nat),
        decreases n - i,
    {
        out.append(" ");
        proof {
            reveal_strlit(" ");
        }
        assert(out@ =~= old(out)@ + spaces((i + 1) as nat));
        i = i + 1;
    }
}

/// The number of characters of `s`.
fn char_count(s: &str) -> (res: usize)
    ensures
        res as nat == s@.len(),
{
    crate::text::chars_of(s).len()
}

/// One framed line.
fn line(content: &str, visible: usize) -> (res: String)
    ensures
        res@ == line_spec(content@, visible as nat),
{
    let mut out = to_owned_string(FRAME);
    out.append("┃");
    out.append(RESET);
    out.append(content);
    let pad = INNER_WIDTH.saturating_sub(visible);
    push_spaces(&mut out, pad);
    out.append(FRAME);
    out.append("┃");
    out.append(RESET);
    out.append("\n");
    assert(out@ =~= line_spec(content@, visible as nat));
    out
}

/// The framed title with the program's `version`.
pub fn banner(version: &str) -> (res: String)
    ensures
        res@ == banner_spec(version@),
{
    let mut blank_content = String::new();
    push_spaces(&mut blank_content, INNER_WIDTH);
    let blank = line(blank_content.as_str(), INNER_WIDTH);

    let mut title = String::new();
    push_spaces(&mut title, 12);
    title.append(TITLE);
    title.append(TITLE_TEXT);
    title.append(RESET);
    let title_len = char_count(TITLE_PLAIN);

    let mut ver = String::new();
    push_spaces(&mut ver, 20);
    ver.append(SUBTLE);
    ver.append("v");
    ver.append(version);
    ver.append(RESET);
    push_spaces(&mut ver, 17);
    let mut ver_plain = String::new();
    push_spaces(&mut ver_plain, 22);
    ver_plain.append("v");
    ver_plain.append(version);
    push_spaces(&mut ver_plain, 15);
    let version_len = char_count(ver_plain.as_str());
    proof {
        reveal_strlit("v");
    }

    let mut out = to_owned_string(TOP);
    out.append(blank.as_str());
    let t = line(title.as_str(), title_len);
    out.append(t.as_str());
    out.append(blank.as_str());
    let v = line(ver.as_str(), version_len);
    out.append(v.as_str());
    out.append(blank.as_str());
    out.append(BOTTOM);
    assert(spaces(0) + spaces(12) =~= spaces(12));
    assert(title@ =~= title_colored());
    assert(spaces(0) + spaces(20) =~= spaces(20));
    assert(ver@ =~= version_colored(version@));
    assert(spaces(0) + spaces(46) =~= spaces(46));
    assert(out@ =~= banner_spec(version@));
    out
}

} // verus!
