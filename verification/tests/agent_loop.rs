use my_agent::agent_loop::{confirmation_prompt, flow_with_answer, decide_flow, decide_tier, is_affirmative, Flow, HitlHook};
use my_agent::registry::{Permission, ToolPerms};

fn perms() -> ToolPerms {
    ToolPerms {
        read_file: Permission::Allow,
        run_bash_readonly: Permission::Allow,
        run_bash_mutating: Permission::Ask,
        edit_file: Permission::Ask,
    }
}

#[test]
fn read_file_auto_runs() {
    assert!(matches!(
        decide_flow(&perms(), "read_file", r#"{"path":"x"}"#),
        Flow::Continue
    ));
}

#[test]
fn readonly_bash_auto_runs() {
    assert!(matches!(
        decide_flow(&perms(), "run_bash", r#"{"command":"ls -la"}"#),
        Flow::Continue
    ));
}

#[test]
fn mutating_bash_asks() {
    assert!(matches!(
        decide_flow(&perms(), "run_bash", r#"{"command":"rm -rf x"}"#),
        Flow::Skip { .. }
    ));
}

#[test]
fn edit_file_asks() {
    assert!(matches!(
        decide_flow(&perms(), "edit_file", r#"{"path":"x","old":"a","new":"b"}"#),
        Flow::Skip { .. }
    ));
}

#[test]
fn write_file_asks_like_edit() {
    assert!(matches!(
        decide_flow(&perms(), "write_file", r#"{"path":"x","content":"hi"}"#),
        Flow::Skip { .. }
    ));
}

#[test]
fn denied_tool_skips() {
    let mut p = perms();
    p.run_bash_readonly = Permission::Deny;
    assert!(matches!(
        decide_flow(&p, "run_bash", r#"{"command":"cat x"}"#),
        Flow::Skip { .. }
    ));
}

#[test]
fn unknown_tool_asks() {
    assert!(matches!(
        decide_flow(&perms(), "mystery", r#"{}"#),
        Flow::Skip { .. }
    ));
}

#[test]
fn skip_reasons_name_the_tool() {
    let mut p = perms();
    p.read_file = Permission::Deny;
    match decide_flow(&p, "read_file", "{}") {
        Flow::Skip { reason } => assert_eq!(reason, "tool `read_file` is denied by policy for this role"),
        Flow::Continue => panic!("a denied call runs"),
    }
    match decide_flow(&p, "edit_file", "{}") {
        Flow::Skip { reason } => assert_eq!(reason, "user declined to run `edit_file`"),
        Flow::Continue => panic!("an unconfirmed call runs"),
    }
}

#[test]
fn bash_command_comes_from_json_arguments() {
    let p = perms();
    assert_eq!(decide_tier(&p, "run_bash", r#"{"command":"git status"}"#), Permission::Allow);
    assert_eq!(decide_tier(&p, "run_bash", r#"{"command":"git push"}"#), Permission::Ask);
    // No command, a command that is no string, or arguments that do not
    // parse: the empty command, which is not read-only.
    assert_eq!(decide_tier(&p, "run_bash", r#"{"cmd":"ls"}"#), Permission::Ask);
    assert_eq!(decide_tier(&p, "run_bash", r#"{"command":42}"#), Permission::Ask);
    assert_eq!(decide_tier(&p, "run_bash", "not json"), Permission::Ask);
    let mut open = perms();
    open.run_bash_mutating = Permission::Allow;
    open.run_bash_readonly = Permission::Deny;
    assert_eq!(decide_tier(&open, "run_bash", "not json"), Permission::Allow);
}

#[test]
fn hook_applies_its_tiers() {
    let h = HitlHook::new(perms());
    assert_eq!(h.tier_for("read_file", "{}"), Permission::Allow);
    assert_eq!(h.tier_for("write_file", "{}"), Permission::Ask);
    assert!(matches!(h.decide("run_bash", r#"{"command":"ls"}"#), Flow::Continue));
}

#[test]
fn confirmation_answers() {
    assert!(is_affirmative("y"));
    assert!(is_affirmative("  YES \n"));
    assert!(is_affirmative("Yes"));
    assert!(!is_affirmative("no"));
    assert!(!is_affirmative("yeah"));
    assert!(!is_affirmative(""));
    assert!(!is_affirmative("y es"));
}

#[test]
fn answered_calls() {
    assert!(matches!(flow_with_answer(Permission::Ask, "run_bash", true), Flow::Continue));
    assert!(matches!(flow_with_answer(Permission::Ask, "run_bash", false), Flow::Skip { .. }));
    assert!(matches!(flow_with_answer(Permission::Deny, "run_bash", true), Flow::Skip { .. }));
    assert!(matches!(flow_with_answer(Permission::Allow, "run_bash", false), Flow::Continue));
    assert_eq!(confirmation_prompt("run_bash", "{}"), "run `run_bash` with {}? [y/N] ");
}
