//! The shell hook: the block that `install` appends to a shell start-up
//! file, and its removal by `uninstall`.
use vstd::prelude::*;

use crate::text::{
    chars_of, contains_spec, decimal, find_chars, find_spec, lemma_find_first,
    lemma_occurs_contains, occurs_at, string_from_chars, to_owned_string, u64_decimal,
};

verus! {

/// The line that opens the hook block; with `-end` after it, the line that
/// closes it.
pub const INSTALL_MARKER: &'static str = "# terse-install";

/// The opening marker line, with the line breaks around it.
pub const HOOK_START: &'static str = "\n# terse-install\n";

/// The closing marker line, with the line breaks around it.
pub const HOOK_END: &'static str = "\n# terse-install-end\n";

/// The hook from the end of the wrapped command's name to the default port.
pub const HOOK_HEAD: &'static str = "() {\n    local port\n    port=$(terse config 2>/dev/null | awk '/^proxy\\.port:/ {print $2}')\n    port=${port:-";

/// The hook from the default port to the wrapped command's name.
pub const HOOK_MIDDLE: &'static str = "}\n    local pid_file=\"${HOME}/.terse/terse.pid\"\n    if [ ! -f \"$pid_file\" ] || ! kill -0 \"$(cat \"$pid_file\")\" 2>/dev/null; then\n        terse proxy >/dev/null 2>&1 &\n        local i=0\n        while [ $i -lt 20 ]; do\n            sleep 0.05\n            nc -z 127.0.0.1 \"$port\" 2>/dev/null && break\n            i=$((i + 1))\n        done\n    fi\n    ANTHROPIC_BASE_URL=\"http://localhost:$port\" command ";

/// The hook after the wrapped command's name.
pub const HOOK_TAIL: &'static str = " \"$@\"\n}";

/// The shell function between the markers: it wraps `command`, starts the
/// proxy when it is not running, waits for the port the configuration names
/// (`port` when it names none) and runs `command` against the proxy.
pub open spec fn hook_body(port: nat, command: Seq<char>) -> Seq<char> {
    command + HOOK_HEAD@ + decimal(port) + HOOK_MIDDLE@ + command + HOOK_TAIL@
}

/// The block that `install` appends.
pub open spec fn snippet_spec(port: nat, command: Seq<char>) -> Seq<char> {
    HOOK_START@ + hook_body(port, command) + HOOK_END@
}

/// What `install` appends to a start-up file whose content is `existing`
/// (`None` when it cannot be read): nothing when the hook is already there.
pub open spec fn install_spec(existing: Option<Seq<char>>, port: nat, command: Seq<char>) -> Option<
    Seq<char>,
> {
    match existing {
        Some(c) if contains_spec(c, INSTALL_MARKER@) => None,
        _ => Some(snippet_spec(port, command)),
    }
}

/// What `uninstall` finds in a start-up file.
pub enum HookRemoval {
    /// The file holds no hook.
    NotFound,
    /// The file's content with the hook block taken out.
    Removed(String),
    /// The file names the hook, but the opening or closing marker line is
    /// missing.
    BoundariesMissing,
}

/// The content of `content` with the hook block removed: the text before
/// the first opening marker line and after the first closing one. `None`
/// when there is no marker; `Some(None)` when a marker line is missing.
pub open spec fn removal_spec(content: Seq<char>) -> Option<Option<Seq<char>>> {
    if !contains_spec(content, INSTALL_MARKER@) {
        None
    } else {
        match (find_spec(content, HOOK_START@), find_spec(content, HOOK_END@)) {
            (Some(s), Some(e)) => Some(
                Some(content.take(s as int) + content.skip((e + HOOK_END@.len()) as int)),
            ),
            _ => Some(None),
        }
    }
}

/// The hook block for `command`, with `port` as the default port.
pub fn install_snippet(port: u16, command: &str) -> (res: String)
    ensures
        res@ == snippet_spec(port as nat, command@),
{
    let mut out = to_owned_string(HOOK_START);
    out.append(command);
    out.append(HOOK_HEAD);
    let p = u64_decimal(port as u64);
    out.append(p.as_str());
    out.append(HOOK_MIDDLE);
    out.append(command);
    out.append(HOOK_TAIL);
    out.append(HOOK_END);
    assert(out@ =~= snippet_spec(port as nat, command@));
    out
}

/// Whether `content` holds the hook marker.
pub fn hook_installed(content: &str) -> (res: bool)
    ensures
        res == contains_spec(content@, INSTALL_MARKER@),
{
    let cs = chars_of(content);
    let marker = chars_of(INSTALL_MARKER);
    find_chars(&cs, &marker).is_some()
}

/// What to append to a start-up file that holds `existing` (`None` when it
/// cannot be read): the hook block, or nothing when it is already installed.
pub fn install_text(existing: Option<&str>, port: u16, command: &str) -> (res: Option<String>)
    ensures
        match install_spec(
            match existing {
                Some(c) => Some(c@),
                None => None,
            },
            port as nat,
            command@,
        ) {
            Some(t) => res matches Some(r) && r@ == t,
            None => res is None,
        },
{
    match existing {
        Some(c) => {
            if hook_installed(c) {
                return None;
            }
        },
        None => {},
    }
    Some(install_snippet(port, command))
}

/// The characters `cs[lo..hi]`.
fn chars_range(cs: &Vec<char>, lo: usize, hi: usize) -> (res: Vec<char>)
    requires
        lo <= hi <= cs@.len(),
    ensures
        res@ == cs@.subrange(lo as int, hi as int),
{
    let mut out: Vec<char> = Vec::new();
    let mut i: usize = lo;
    while i < hi
        invariant
            lo <= i <= hi <= cs@.len(),
            out@ == cs@.subrange(lo as int, i as int),
        decreases hi - i,
    {
        out.push(cs[i]);
        assert(out@ =~= cs@.subrange(lo as int, i + 1));
        i = i + 1;
    }
    out
}

/// Takes the hook block out of `content`.
pub fn remove_hook(content: &str) -> (res: HookRemoval)
    ensures
        match removal_spec(content@) {
            None => res is NotFound,
            Some(Some(t)) => res matches HookRemoval::Removed(r) && r@ == t,
            Some(None) => res is BoundariesMissing,
        },
{
    if !hook_installed(content) {
        return HookRemoval::NotFound;
    }
    let cs = chars_of(content);
    let n = cs.len();
    let start_marker = chars_of(HOOK_START);
    let end_marker = chars_of(HOOK_END);
    match (find_chars(&cs, &start_marker), find_chars(&cs, &end_marker)) {
        (Some(s), Some(e)) => {
            proof {
                crate::text::lemma_find_from(cs@, start_marker@, 0);
                crate::text::lemma_find_from(cs@, end_marker@, 0);
            }
            let after_end = e + end_marker.len();
            let mut kept = chars_range(&cs, 0, s);
            let mut rest = chars_range(&cs, after_end, n);
            kept.append(&mut rest);
            assert(cs@.subrange(0, s as int) =~= cs@.take(s as int));
            assert(cs@.subrange(after_end as int, cs@.len() as int) =~= cs@.skip(
                after_end as int,
            ));
            HookRemoval::Removed(string_from_chars(kept.as_slice()))
        },
        _ => HookRemoval::BoundariesMissing,
    }
}

/// The start-up file in the home directory for the shell `shell` (the value
/// of `$SHELL`): `.zshrc` for zsh, `.bashrc` otherwise.
pub fn rc_file_name(shell: &str) -> (res: &'static str)
    ensures
        res@ == if contains_spec(shell@, "zsh"@) {
            ".zshrc"@
        } else {
            ".bashrc"@
        },
{
    let cs = chars_of(shell);
    let zsh = chars_of("zsh");
    if find_chars(&cs, &zsh).is_some() {
        ".zshrc"
    } else {
        ".bashrc"
    }
}

// ---------------------------------------------------------------------------
// Laws
// ---------------------------------------------------------------------------

/// No character of `s` is `#`.
pub open spec fn hash_free(s: Seq<char>) -> bool {
    forall|k: int| 0 <= k < s.len() ==> s[k] != '#'
}

proof fn lemma_decimal_hash_free(n: nat)
    ensures
        hash_free(decimal(n)),
    decreases n,
{
    if n >= 10 {
        lemma_decimal_hash_free(n / 10);
    }
}

proof fn lemma_literals()
    ensures
        INSTALL_MARKER@.len() == 15,
        INSTALL_MARKER@[0] == '#',
        forall|k: int| 0 <= k < 15 ==> INSTALL_MARKER@[k] != '\n',
        forall|k: int| 1 <= k < 15 ==> INSTALL_MARKER@[k] != '#',
        HOOK_START@ == "\n"@ + INSTALL_MARKER@ + "\n"@,
        HOOK_END@ == "\n"@ + INSTALL_MARKER@ + "-end\n"@,
        HOOK_END@[16] == '-',
        HOOK_START@.len() == 17,
        HOOK_END@.len() == 21,
        "\n"@ == seq!['\n'],
        hash_free(HOOK_HEAD@),
        hash_free(HOOK_MIDDLE@),
        hash_free(HOOK_TAIL@),
{
    reveal_strlit("# terse-install");
    reveal_strlit("\n# terse-install\n");
    reveal_strlit("\n# terse-install-end\n");
    reveal_strlit("\n");
    reveal_strlit("-end\n");
    reveal_strlit(
        "() {\n    local port\n    port=$(terse config 2>/dev/null | awk '/^proxy\\.port:/ {print $2}')\n    port=${port:-",
    );
    reveal_strlit(
        "}\n    local pid_file=\"${HOME}/.terse/terse.pid\"\n    if [ ! -f \"$pid_file\" ] || ! kill -0 \"$(cat \"$pid_file\")\" 2>/dev/null; then\n        terse proxy >/dev/null 2>&1 &\n        local i=0\n        while [ $i -lt 20 ]; do\n            sleep 0.05\n            nc -z 127.0.0.1 \"$port\" 2>/dev/null && break\n            i=$((i + 1))\n        done\n    fi\n    ANTHROPIC_BASE_URL=\"http://localhost:$port\" command ",
    );
    reveal_strlit(" \"$@\"\n}");
    assert(HOOK_START@ =~= "\n"@ + INSTALL_MARKER@ + "\n"@);
    assert(HOOK_END@ =~= "\n"@ + INSTALL_MARKER@ + "-end\n"@);
}

/// Installing into a file that already has the hook appends nothing, so
/// installing twice leaves one hook block.
pub proof fn install_is_idempotent(content: Seq<char>, port: nat, command: Seq<char>)
    ensures
        ({
            let after = match install_spec(Some(content), port, command) {
                Some(s) => content + s,
                None => content,
            };
            install_spec(Some(after), port, command) is None
        }),
{
    if !contains_spec(content, INSTALL_MARKER@) {
        lemma_literals();
        let w = content + snippet_spec(port, command);
        let c = content.len() as int;
        assert(w.subrange(c + 1, c + 16) =~= INSTALL_MARKER@);
        lemma_occurs_contains(w, INSTALL_MARKER@, c + 1);
    }
}

proof fn lemma_body_hash_free(port: nat, command: Seq<char>)
    requires
        hash_free(command),
    ensures
        hash_free(hook_body(port, command)),
{
    lemma_literals();
    lemma_decimal_hash_free(port);
    let body = hook_body(port, command);
    let d = decimal(port);
    let l1 = command.len() as int;
    let l2 = l1 + HOOK_HEAD@.len();
    let l3 = l2 + d.len();
    let l4 = l3 + HOOK_MIDDLE@.len();
    let l5 = l4 + command.len();
    assert forall|k: int| 0 <= k < body.len() implies body[k] != '#' by {
        if k < l1 {
            assert(body[k] == command[k]);
        } else if k < l2 {
            assert(body[k] == HOOK_HEAD@[k - l1]);
        } else if k < l3 {
            assert(body[k] == d[k - l2]);
        } else if k < l4 {
            assert(body[k] == HOOK_MIDDLE@[k - l3]);
        } else if k < l5 {
            assert(body[k] == command[k - l4]);
        } else {
            assert(body[k] == HOOK_TAIL@[k - l5]);
        }
    }
}

/// A marker line of the hook cannot begin inside a text without the marker
/// when a line break follows that text.
proof fn lemma_marker_in_prefix(content: Seq<char>, w: Seq<char>, pat: Seq<char>, m: int)
    requires
        !contains_spec(content, INSTALL_MARKER@),
        w.len() >= content.len() + 1,
        w.subrange(0, content.len() as int) == content,
        w[content.len() as int] == '\n',
        pat.len() >= 16,
        pat.subrange(1, 16) == INSTALL_MARKER@,
        0 <= m < content.len(),
    ensures
        !occurs_at(w, pat, m),
{
    lemma_literals();
    let c = content.len() as int;
    if occurs_at(w, pat, m) {
        let sub = w.subrange(m, m + pat.len());
        if m + 16 <= c {
            assert(content.subrange(m + 1, m + 16) =~= INSTALL_MARKER@) by {
                assert forall|q: int| 0 <= q < 15 implies content.subrange(m + 1, m + 16)[q]
                    == INSTALL_MARKER@[q] by {
                    assert(sub[q + 1] == pat[q + 1]);
                    assert(pat[q + 1] == pat.subrange(1, 16)[q]);
                    assert(w[m + 1 + q] == w.subrange(0, c)[m + 1 + q]);
                }
            }
            lemma_occurs_contains(content, INSTALL_MARKER@, m + 1);
        } else {
            assert(sub[c - m] == pat[c - m]);
            assert(pat[c - m] == pat.subrange(1, 16)[c - m - 1]);
        }
    }
}

proof fn lemma_first_start(content: Seq<char>, body: Seq<char>)
    requires
        !contains_spec(content, INSTALL_MARKER@),
    ensures
        find_spec(content + HOOK_START@ + body + HOOK_END@, HOOK_START@) == Some(
            content.len(),
        ),
{
    lemma_literals();
    let w = content + HOOK_START@ + body + HOOK_END@;
    let c = content.len() as int;
    assert(w.subrange(c, c + 17) =~= HOOK_START@);
    assert(w.subrange(0, c) =~= content);
    assert(HOOK_START@.subrange(1, 16) =~= INSTALL_MARKER@);
    assert forall|m: int| 0 <= m < c implies !occurs_at(w, HOOK_START@, m) by {
        if occurs_at(w, HOOK_START@, m) {
            lemma_marker_in_prefix(content, w, HOOK_START@, m);
        }
    }
    lemma_find_first(w, HOOK_START@, c);
}

proof fn lemma_first_end(content: Seq<char>, body: Seq<char>)
    requires
        !contains_spec(content, INSTALL_MARKER@),
        hash_free(body),
    ensures
        find_spec(content + HOOK_START@ + body + HOOK_END@, HOOK_END@) == Some(
            (content.len() + 17 + body.len()) as nat,
        ),
{
    lemma_literals();
    let w = content + HOOK_START@ + body + HOOK_END@;
    let c = content.len() as int;
    let e = c + 17 + body.len();
    assert(w.len() == e + 21);
    assert(w.subrange(e, e + 21) =~= HOOK_END@);
    assert(w.subrange(0, c) =~= content);
    assert(HOOK_END@.subrange(1, 16) =~= INSTALL_MARKER@);
    assert forall|m: int| 0 <= m < e implies !occurs_at(w, HOOK_END@, m) by {
        if occurs_at(w, HOOK_END@, m) {
            let sub = w.subrange(m, m + 21);
            if m < c {
                lemma_marker_in_prefix(content, w, HOOK_END@, m);
            } else if m == c {
                assert(sub[16] == HOOK_END@[16]);
                assert(w[c + 16] == HOOK_START@[16]);
            } else {
                assert(sub[1] == HOOK_END@[1]);
                assert(HOOK_END@[1] == '#');
                if m + 1 < c + 17 {
                    assert(w[m + 1] == HOOK_START@[m + 1 - c]);
                    assert(HOOK_START@[m + 1 - c] == INSTALL_MARKER@[m - c]);
                } else if m + 1 < e {
                    assert(w[m + 1] == body[m + 1 - c - 17]);
                } else {
                    assert(w[m + 1] == HOOK_END@[0]);
                }
            }
        }
    }
    lemma_find_first(w, HOOK_END@, e);
}

/// Removing the hook from a file that got it from `install` gives the file
/// back as it was, when it held no hook before and the wrapped command's
/// name holds no `#`.
pub proof fn uninstall_undoes_install(content: Seq<char>, port: nat, command: Seq<char>)
    requires
        !contains_spec(content, INSTALL_MARKER@),
        hash_free(command),
    ensures
        install_spec(Some(content), port, command) == Some(snippet_spec(port, command)),
        removal_spec(content + snippet_spec(port, command)) == Some(Some(content)),
{
    lemma_literals();
    let body = hook_body(port, command);
    lemma_body_hash_free(port, command);
    let w = content + snippet_spec(port, command);
    let c = content.len() as int;
    let e = c + 17 + body.len();
    assert(w =~= content + HOOK_START@ + body + HOOK_END@);
    assert(w.subrange(c + 1, c + 16) =~= INSTALL_MARKER@);
    lemma_occurs_contains(w, INSTALL_MARKER@, c + 1);
    lemma_first_start(content, body);
    lemma_first_end(content, body);
    assert(w.take(c) + w.skip(e + 21) =~= content);
}

} // verus!
