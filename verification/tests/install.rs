use terse::install::{
    hook_installed, install_snippet, install_text, rc_file_name, remove_hook, HookRemoval,
    INSTALL_MARKER,
};

fn removed(r: HookRemoval) -> Option<String> {
    match r {
        HookRemoval::Removed(s) => Some(s),
        _ => None,
    }
}

#[test]
fn snippet_holds_hook() {
    let s = install_snippet(3847, "mycli");
    assert!(s.starts_with("\n# terse-install\nmycli() {\n"));
    assert!(s.ends_with("\n}\n# terse-install-end\n"));
    assert!(s.contains("port=${port:-3847}"));
    assert!(s.contains("ANTHROPIC_BASE_URL=\"http://localhost:$port\" command mycli \"$@\""));
    assert!(s.contains("terse proxy >/dev/null 2>&1 &"));
    assert!(s.contains("awk '/^proxy\\.port:/ {print $2}'"));
    assert!(s.contains("            sleep 0.05\n"));
    assert_eq!(s.matches(INSTALL_MARKER).count(), 2);
}

#[test]
fn install_appends_once() {
    let first = install_text(Some("export A=1\n"), 9000, "mycli").unwrap();
    let after = format!("export A=1\n{}", first);
    assert!(hook_installed(&after));
    assert!(install_text(Some(after.as_str()), 9000, "mycli").is_none());
    assert_eq!(after.matches("# terse-install\n").count(), 1);
    assert!(install_text(None, 1, "mycli").is_some());
    assert!(!hook_installed("export A=1\n"));
}

#[test]
fn uninstall_restores_file() {
    let original = "export A=1\nalias x=y\n";
    let with_hook = format!("{}{}", original, install_snippet(3847, "mycli"));
    assert_eq!(removed(remove_hook(&with_hook)).as_deref(), Some(original));
    let empty_then_hook = install_snippet(1, "mycli");
    assert_eq!(removed(remove_hook(&empty_then_hook)).as_deref(), Some(""));
}

#[test]
fn uninstall_keeps_text_after_block() {
    let content = format!("a\n{}b\n", install_snippet(3847, "mycli"));
    assert_eq!(removed(remove_hook(&content)).as_deref(), Some("a\nb\n"));
}

#[test]
fn uninstall_without_hook_or_boundaries() {
    assert!(matches!(remove_hook("nothing here\n"), HookRemoval::NotFound));
    assert!(matches!(remove_hook("x # terse-install y"), HookRemoval::BoundariesMissing));
    assert!(matches!(remove_hook("\n# terse-install\nno end"), HookRemoval::BoundariesMissing));
}

#[test]
fn rc_file_follows_shell() {
    assert_eq!(rc_file_name("/bin/zsh"), ".zshrc");
    assert_eq!(rc_file_name("/usr/bin/bash"), ".bashrc");
    assert_eq!(rc_file_name(""), ".bashrc");
}

#[test]
fn install_writes_hook_to_rc_file() {
    let content = install_text(Some(""), 3847, "mycli").unwrap();
    assert!(content.contains("# terse-install"));
    assert!(content.contains("ANTHROPIC_BASE_URL"));
    assert!(content.contains("terse proxy"));
}

#[test]
fn install_is_idempotent() {
    let first = install_text(Some(""), 3847, "mycli").unwrap();
    assert!(install_text(Some(first.as_str()), 3847, "mycli").is_none());
    assert_eq!(first.matches("# terse-install\n").count(), 1, "hook block should appear exactly once");
}

#[test]
fn uninstall_removes_hook() {
    let content = install_text(Some(""), 3847, "mycli").unwrap();
    let cleaned = removed(remove_hook(&content)).unwrap();
    assert!(!cleaned.contains("# terse-install"), "hook should be removed");
    assert!(!cleaned.contains("ANTHROPIC_BASE_URL"), "hook body should be removed");
}

#[test]
fn uninstall_with_no_hook_reports_gracefully() {
    assert!(matches!(remove_hook(""), HookRemoval::NotFound));
}
