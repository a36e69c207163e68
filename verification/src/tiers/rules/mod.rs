//! The rule tier: boilerplate, filler and formatting removal.
pub mod assistant;
pub mod fillers;
pub mod markdown;
pub mod structural;
pub mod substitutions;
pub mod user;
pub mod whitespace;

use vstd::prelude::*;

use crate::pattern::{then, yields};
use crate::text::{str_equal, to_owned_string};
use assistant::{remove_assistant_boilerplate, remove_assistant_boilerplate_spec};
use fillers::{remove_fillers, remove_fillers_spec};
use markdown::{strip_markdown_formatting, strip_markdown_spec};
use structural::{remove_structural_meta_commentary, remove_structural_spec};
use substitutions::{apply_substitutions, apply_substitutions_spec};
use user::{remove_user_boilerplate, remove_user_boilerplate_spec};
use whitespace::{normalize_whitespace, normalize_whitespace_spec};

verus! {

/// The role-specific boilerplate pass: assistant openers/closers and
/// meta-commentary for `"assistant"`, user pleasantries for `"user"`,
/// nothing for any other role.
pub open spec fn role_pass_spec(t: Seq<char>, role: Seq<char>) -> Option<Seq<char>> {
    if role == "assistant"@ {
        then(remove_assistant_boilerplate_spec(t), |s: Seq<char>| remove_structural_spec(s))
    } else if role == "user"@ {
        remove_user_boilerplate_spec(t)
    } else {
        Some(t)
    }
}

/// The whole rule tier: the role pass, then substitutions, fillers,
/// markdown stripping and whitespace normalisation, in that order.
pub open spec fn apply_rules_spec(t: Seq<char>, role: Seq<char>) -> Option<Seq<char>> {
    let a = role_pass_spec(t, role);
    let b = then(a, |s: Seq<char>| apply_substitutions_spec(s));
    let c = then(b, |s: Seq<char>| remove_fillers_spec(s));
    let d = then(c, |s: Seq<char>| strip_markdown_spec(s));
    then(d, |s: Seq<char>| normalize_whitespace_spec(s))
}

/// The rule tier is a role-specific pass followed by the same steps for
/// every role: for the assistant, openers and closers are removed and then
/// structural meta-commentary; for the user, pleasantries; any other role
/// gets the common steps alone. The common steps are what the tier does for
/// a role with no pass of its own, such as `"system"`.
pub proof fn rules_pass_then_common_steps(t: Seq<char>, role: Seq<char>)
    ensures
        apply_rules_spec(t, "assistant"@) == match remove_assistant_boilerplate_spec(t) {
            Some(x) => match remove_structural_spec(x) {
                Some(y) => apply_rules_spec(y, "system"@),
                None => None,
            },
            None => None,
        },
        apply_rules_spec(t, "user"@) == match remove_user_boilerplate_spec(t) {
            Some(x) => apply_rules_spec(x, "system"@),
            None => None,
        },
        role != "assistant"@ && role != "user"@ ==> apply_rules_spec(t, role) == apply_rules_spec(
            t,
            "system"@,
        ),
{
    reveal_strlit("assistant");
    reveal_strlit("user");
    reveal_strlit("system");
    assert("system"@ != "assistant"@ && "system"@ != "user"@) by {
        assert("system"@[0] != "assistant"@[0]);
        assert("system"@[0] != "user"@[0]);
    }
    assert("assistant"@ != "user"@) by {
        assert("assistant"@[0] != "user"@[0]);
    }
}

/// Runs the rule tier on `text` written by `role`.
pub fn apply_rules(text: &str, role: &str) -> (res: Result<String, String>)
    ensures
        yields(res, apply_rules_spec(text@, role@)),
{
    let a = if str_equal(role, "assistant") {
        let x = remove_assistant_boilerplate(text)?;
        remove_structural_meta_commentary(x.as_str())?
    } else if str_equal(role, "user") {
        remove_user_boilerplate(text)?
    } else {
        to_owned_string(text)
    };
    assert(role_pass_spec(text@, role@) == Some(a@));
    let b = apply_substitutions(a.as_str())?;
    let c = remove_fillers(b.as_str())?;
    let d = strip_markdown_formatting(c.as_str())?;
    normalize_whitespace(d.as_str())
}

} // verus!
