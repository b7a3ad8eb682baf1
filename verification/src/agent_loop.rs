//! The human-in-the-loop confirmation of the autonomous loop: the tier of each tool
//! call and the decision that follows from it.
use vstd::prelude::*;
use crate::json::{json_string_field, string_field};
use crate::registry::{Permission, Role, ToolPerms};
use crate::text::{chars_of, str_eq, string_from_chars, trim, trim_chars, CharClass};
use crate::tools::{is_readonly_bash, readonly_command};
use crate::unicode::{lowercase, to_lowercase};

verus! {

/// The names of the builtin tools.
pub open spec fn builtin_tool_names() -> Seq<Seq<char>> {
    seq!["read_file"@, "edit_file"@, "write_file"@, "run_bash"@]
}

/// The tier of a shell command: read-only commands and the others each have
/// their own.
pub open spec fn bash_tier(perms: ToolPerms, command: Seq<char>) -> Permission {
    if readonly_command(command) {
        perms.run_bash_readonly
    } else {
        perms.run_bash_mutating
    }
}

/// The tier of a call of `tool` whose shell command (when it runs one) is
/// `command`. An unknown tool asks.
pub open spec fn tool_tier(perms: ToolPerms, tool: Seq<char>, command: Seq<char>) -> Permission {
    if tool == "read_file"@ {
        perms.read_file
    } else if tool == "edit_file"@ || tool == "write_file"@ {
        perms.edit_file
    } else if tool == "run_bash"@ {
        bash_tier(perms, command)
    } else {
        Permission::Ask
    }
}

/// The shell command in the JSON arguments of a call: their `command`
/// string, or the empty command when there is none.
pub open spec fn command_of(args: Seq<char>) -> Seq<char> {
    match json_string_field(args, "command"@) {
        Some(c) => c,
        None => Seq::<char>::empty(),
    }
}

/// The tier of a call of `tool_name` that runs `command`.
pub fn tier_for_command(perms: &ToolPerms, tool_name: &str, command: &str) -> (r: Permission)
    ensures
        r == tool_tier(*perms, tool_name@, command@),
{
    if str_eq(tool_name, "read_file") {
        perms.read_file
    } else if str_eq(tool_name, "edit_file") || str_eq(tool_name, "write_file") {
        perms.edit_file
    } else if str_eq(tool_name, "run_bash") {
        if is_readonly_bash(command) {
            perms.run_bash_readonly
        } else {
            perms.run_bash_mutating
        }
    } else {
        Permission::Ask
    }
}

/// The tier of a tool call whose arguments are the JSON text `args`; the
/// shell command of `run_bash` is its `command` argument.
pub fn decide_tier(perms: &ToolPerms, tool_name: &str, args: &str) -> (r: Permission)
    ensures
        r == tool_tier(*perms, tool_name@, command_of(args@)),
{
    if str_eq(tool_name, "run_bash") {
        let command = match string_field(args, "command") {
            Some(c) => c,
            None => String::new(),
        };
        tier_for_command(perms, tool_name, command.as_str())
    } else {
        tier_for_command(perms, tool_name, "")
    }
}

/// What happens to a tool call: it runs, or it is skipped with a reason
/// given back to the model.
#[derive(Debug)]
pub enum Flow {
    Continue,
    Skip { reason: String },
}

/// The reason given for a refused call.
pub open spec fn denied_reason(tool: Seq<char>) -> Seq<char> {
    "tool `"@ + tool + "` is denied by policy for this role"@
}

/// The reason given for a call the human did not confirm.
pub open spec fn declined_reason(tool: Seq<char>) -> Seq<char> {
    "user declined to run `"@ + tool + "`"@
}

/// `flow` is what the tier `tier` decides for a call of `tool`, when nobody
/// is asked: `Allow` runs it, `Deny` and `Ask` skip it.
pub open spec fn flow_for(flow: Flow, tier: Permission, tool: Seq<char>) -> bool {
    match tier {
        Permission::Allow => flow is Continue,
        Permission::Deny => flow matches Flow::Skip { reason } && reason@ == denied_reason(tool),
        Permission::Ask => flow matches Flow::Skip { reason } && reason@ == declined_reason(tool),
    }
}

/// The decision for a call of `tool_name` in the given tier.
pub fn flow_for_tier(tier: Permission, tool_name: &str) -> (f: Flow)
    ensures
        flow_for(f, tier, tool_name@),
{
    match tier {
        Permission::Allow => Flow::Continue,
        Permission::Deny => {
            let reason = String::from_str("tool `").concat(tool_name).concat(
                "` is denied by policy for this role",
            );
            Flow::Skip { reason }
        },
        Permission::Ask => {
            let reason = String::from_str("user declined to run `").concat(tool_name).concat("`");
            Flow::Skip { reason }
        },
    }
}

/// The decision for a tool call, without asking anybody: a call in the `Ask`
/// tier counts as declined. The interactive hook asks the human about such a
/// call instead and decides with `flow_with_answer`.
pub fn decide_flow(perms: &ToolPerms, tool_name: &str, args: &str) -> (f: Flow)
    ensures
        flow_for(f, tool_tier(*perms, tool_name@, command_of(args@)), tool_name@),
{
    let tier = decide_tier(perms, tool_name, args);
    flow_for_tier(tier, tool_name)
}

/// The decision once the human has answered (the answer matters only in the
/// `Ask` tier): `Allow` runs, `Deny` skips, and `Ask` runs exactly when the
/// human said yes.
pub open spec fn flow_answered(flow: Flow, tier: Permission, tool: Seq<char>, confirmed: bool) -> bool {
    if tier == Permission::Ask && confirmed {
        flow is Continue
    } else {
        flow_for(flow, tier, tool)
    }
}

pub fn flow_with_answer(tier: Permission, tool_name: &str, confirmed: bool) -> (f: Flow)
    ensures
        flow_answered(f, tier, tool_name@, confirmed),
{
    if tier == Permission::Ask && confirmed {
        Flow::Continue
    } else {
        flow_for_tier(tier, tool_name)
    }
}

/// The question put to the human about a call in the `Ask` tier.
pub open spec fn confirmation_question(tool: Seq<char>, args: Seq<char>) -> Seq<char> {
    "run `"@ + tool + "` with "@ + args + "? [y/N] "@
}

pub fn confirmation_prompt(tool_name: &str, args: &str) -> (s: String)
    ensures
        s@ == confirmation_question(tool_name@, args@),
{
    String::from_str("run `").concat(tool_name).concat("` with ").concat(args).concat("? [y/N] ")
}

/// An answer that is already trimmed and lower-cased is `y` or `yes`.
pub open spec fn yes_word(a: Seq<char>) -> bool {
    a == "y"@ || a == "yes"@
}

/// The human's answer is yes: once trimmed and lower-cased it is `y` or `yes`.
pub open spec fn affirmative(answer: Seq<char>) -> bool {
    yes_word(lowercase(trim(answer)))
}

/// Whether a trimmed, lower-cased answer says yes.
pub fn is_yes(a: &str) -> (r: bool)
    ensures
        r == yes_word(a@),
{
    str_eq(a, "y") || str_eq(a, "yes")
}

/// Whether the human's answer to a confirmation says yes.
pub fn is_affirmative(answer: &str) -> (r: bool)
    ensures
        r == affirmative(answer@),
{
    let cs = chars_of(answer);
    let t = trim_chars(cs.as_slice(), CharClass::Whitespace);
    let ts = string_from_chars(t.as_slice());
    let a = to_lowercase(ts.as_str());
    is_yes(a.as_str())
}

/// The name of a role as it is printed.
pub open spec fn role_name(role: Role) -> Seq<char> {
    match role {
        Role::Orchestrator => "Orchestrator"@,
        Role::Planner => "Planner"@,
        Role::Builder => "Builder"@,
        Role::Auditor => "Auditor"@,
    }
}

/// The preamble of the agent that runs the autonomous loop: the role's
/// preamble file when it could be read, else a one-line stand-in naming the
/// role; the blocks of the skills relevant to the goal follow after a blank
/// line, when there are any.
pub open spec fn runner_preamble_text(file: Option<Seq<char>>, role: Role, skills: Seq<char>) -> Seq<char> {
    let base = match file {
        Some(f) => f,
        None => "你是 "@ + role_name(role) + " agent。"@,
    };
    if skills.len() == 0 {
        base
    } else {
        base + "\n\n"@ + skills
    }
}

pub fn runner_preamble(file: Option<String>, role: Role, skills: &str) -> (p: String)
    ensures
        p@ == runner_preamble_text(crate::json::opt_string_view(file), role, skills@),
{
    let base = match file {
        Some(f) => f,
        None => {
            let name = match role {
                Role::Orchestrator => "Orchestrator",
                Role::Planner => "Planner",
                Role::Builder => "Builder",
                Role::Auditor => "Auditor",
            };
            String::from_str("你是 ").concat(name).concat(" agent。")
        },
    };
    if skills.is_empty() {
        base
    } else {
        base.concat("\n\n").concat(skills)
    }
}

/// The model of the agent that runs the loop: the session's choice, else the
/// role's configured model.
pub fn runner_model(session_model: Option<String>, configured: &str) -> (m: String)
    ensures
        m@ == match session_model {
            Some(s) => s@,
            None => configured@,
        },
{
    match session_model {
        Some(s) => s,
        None => String::from_str(configured),
    }
}

/// The confirmation hook of the autonomous loop, holding the tool tiers of its role.
#[derive(Clone, Copy, Debug)]
pub struct HitlHook {
    perms: ToolPerms,
}

impl HitlHook {
    /// The tiers the hook applies.
    pub closed spec fn perms(&self) -> ToolPerms {
        self.perms
    }

    pub fn new(perms: ToolPerms) -> (h: Self)
        ensures
            h.perms() == perms,
    {
        HitlHook { perms }
    }

    /// The tier of a tool call with the given JSON arguments.
    pub fn tier_for(&self, tool_name: &str, args: &str) -> (r: Permission)
        ensures
            r == tool_tier(self.perms(), tool_name@, command_of(args@)),
    {
        decide_tier(&self.perms, tool_name, args)
    }

    /// The decision for a tool call when nobody is asked.
    pub fn decide(&self, tool_name: &str, args: &str) -> (f: Flow)
        ensures
            flow_for(f, tool_tier(self.perms(), tool_name@, command_of(args@)), tool_name@),
    {
        decide_flow(&self.perms, tool_name, args)
    }
}

/// Every builtin tool is governed by one of the configured tiers, never by
/// the fallback of unknown tools; a name that is no builtin tool asks.
pub proof fn lemma_builtin_tools_classified(perms: ToolPerms, tool: Seq<char>, command: Seq<char>)
    ensures
        builtin_tool_names().contains(tool) ==> {
            let t = tool_tier(perms, tool, command);
            t == perms.read_file || t == perms.edit_file || t == perms.run_bash_readonly || t
                == perms.run_bash_mutating
        },
        !builtin_tool_names().contains(tool) ==> tool_tier(perms, tool, command) == Permission::Ask,
{
    reveal_strlit("read_file");
    reveal_strlit("edit_file");
    reveal_strlit("write_file");
    reveal_strlit("run_bash");
    let names = builtin_tool_names();
    if !names.contains(tool) {
        assert(names[0] == "read_file"@);
        assert(names[1] == "edit_file"@);
        assert(names[2] == "write_file"@);
        assert(names[3] == "run_bash"@);
    }
}

/// Editing and writing a file are one tier: whatever governs edits governs
/// writes.
pub proof fn lemma_write_is_gated_like_edit(perms: ToolPerms, command: Seq<char>)
    ensures
        tool_tier(perms, "write_file"@, command) == tool_tier(perms, "edit_file"@, command),
        tool_tier(perms, "edit_file"@, command) == perms.edit_file,
{
    reveal_strlit("read_file");
    reveal_strlit("edit_file");
    reveal_strlit("write_file");
    assert("write_file"@[0] != "read_file"@[0]);
    assert("edit_file"@[0] != "read_file"@[0]);
}

/// Only a call in the `Allow` tier runs without asking; `Ask` and `Deny`
/// calls are skipped with a reason.
pub proof fn lemma_only_allowed_calls_run(f: Flow, tier: Permission, tool: Seq<char>)
    requires
        flow_for(f, tier, tool),
    ensures
        f is Continue <==> tier == Permission::Allow,
{
}

/// The tier of a shell command follows its classification: a read-only
/// command takes the read-only tier, any other command the mutating one.
pub proof fn lemma_bash_tier_follows_classification(perms: ToolPerms, command: Seq<char>)
    ensures
        tool_tier(perms, "run_bash"@, command) == if readonly_command(command) {
            perms.run_bash_readonly
        } else {
            perms.run_bash_mutating
        },
{
    reveal_strlit("read_file");
    reveal_strlit("edit_file");
    reveal_strlit("write_file");
    reveal_strlit("run_bash");
    assert("run_bash"@[1] != "read_file"@[1]);
    assert("run_bash"@[0] != "edit_file"@[0]);
    assert("run_bash"@[0] != "write_file"@[0]);
}

} // verus!
