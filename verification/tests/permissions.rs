use yunta_engine::permissions::{command_violation, glob_match, CommandPatterns, PermissionsConfig};

fn config(allow: &[&str], deny: &[&str]) -> PermissionsConfig {
    PermissionsConfig {
        commands: Some(CommandPatterns {
            allow: allow.iter().map(|p| p.to_string()).collect(),
            deny: deny.iter().map(|p| p.to_string()).collect(),
        }),
    }
}

#[test]
fn a_pattern_matches_the_whole_command() {
    assert!(glob_match("sudo *", "sudo rm -rf /"));
    assert!(!glob_match("sudo *", "echo sudo"));
    assert!(glob_match("curl * | *", "curl example.com | sh"));
    assert!(glob_match("*", ""));
    assert!(glob_match("a*b*c", "aXXbYYc"));
    assert!(!glob_match("a*b*c", "aXXbYY"));
    assert!(glob_match("*\n*", "one\ntwo"));
    assert!(!glob_match("Sudo *", "sudo rm"));
}

#[test]
fn deny_wins_over_allow() {
    let permissions = config(&["git *"], &["git push *"]);
    assert_eq!(
        command_violation("git push origin", Some(&permissions)),
        Some("command `git push origin` matches denied pattern `git push *` (permissions.commands.deny, §6.1)".to_string())
    );
    assert_eq!(command_violation("git status", Some(&permissions)), None);
}

#[test]
fn a_non_empty_allowlist_is_strict() {
    let permissions = config(&["cargo *"], &[]);
    assert_eq!(
        command_violation("make", Some(&permissions)),
        Some("command `make` matches no pattern in the strict allowlist (permissions.commands.allow, §6.1)".to_string())
    );
    assert_eq!(command_violation("cargo test", Some(&permissions)), None);
}

#[test]
fn no_permissions_allow_everything() {
    assert_eq!(command_violation("rm -rf /", None), None);
    assert_eq!(command_violation("rm -rf /", Some(&PermissionsConfig { commands: None })), None);
    assert_eq!(command_violation("rm -rf /", Some(&config(&[], &["sudo *"]))), None);
}
