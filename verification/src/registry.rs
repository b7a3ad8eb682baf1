//! Roles, their configuration and permissions, the registry that holds them,
//! and the intent classifier that routes a message to a role.
use vstd::prelude::*;
use std::sync::Arc;
use crate::text::{contains_sub, str_contains, str_eq};
use crate::unicode::{ascii_lower, ascii_upper, lemma_ascii_case_folds, lowercase, to_lowercase};
use vstd::utf8::is_ascii_chars;

verus! {

/// The roles an agent can play.
#[derive(Clone, Copy, Debug, PartialEq, Eq, Structural)]
pub enum Role {
    Orchestrator,
    Planner,
    Builder,
    Auditor,
}

/// How a tool call is handled: run it, ask the human first, or refuse it.
#[derive(Clone, Copy, Debug, PartialEq, Eq, Structural)]
pub enum Permission {
    Allow,
    Ask,
    Deny,
}

impl Default for Permission {
    /// A permission left out of the configuration allows.
    fn default() -> (p: Self)
        ensures
            p == Permission::Allow,
    {
        Permission::Allow
    }
}

/// The permissions of a role in its configuration.
#[derive(Clone, Copy, Debug, PartialEq, Eq, Structural)]
pub struct Permissions {
    pub edit: Permission,
    pub bash: Permission,
}

impl Default for Permissions {
    fn default() -> (p: Self)
        ensures
            p.edit == Permission::Allow,
            p.bash == Permission::Allow,
    {
        Permissions { edit: Permission::Allow, bash: Permission::Allow }
    }
}

/// The tier of each builtin tool for one role, as the confirmation hook of the autonomous
/// loop applies it.
#[derive(Clone, Copy, Debug, PartialEq, Eq, Structural)]
pub struct ToolPerms {
    pub read_file: Permission,
    pub run_bash_readonly: Permission,
    pub run_bash_mutating: Permission,
    pub edit_file: Permission,
}

impl ToolPerms {
    /// The tool tiers that follow from a role's configured permissions:
    /// reading files and read-only commands change nothing and run; commands
    /// that may change state take the `bash` permission, edits and writes the
    /// `edit` permission.
    pub fn from_permissions(p: Permissions) -> (t: ToolPerms)
        ensures
            t.read_file == Permission::Allow,
            t.run_bash_readonly == Permission::Allow,
            t.run_bash_mutating == p.bash,
            t.edit_file == p.edit,
    {
        ToolPerms {
            read_file: Permission::Allow,
            run_bash_readonly: Permission::Allow,
            run_bash_mutating: p.bash,
            edit_file: p.edit,
        }
    }
}

/// A role's model, the path of its preamble file and its permissions.
#[derive(Clone, Debug)]
pub struct RoleConfig {
    pub model: String,
    pub preamble: String,
    pub permissions: Permissions,
}

/// The configured roles, each under its name (the `[agents]` table). A
/// registry holds a table whose names are unique, as the keys of a TOML
/// table are.
#[derive(Debug)]
pub struct AgentRegistryConfig {
    pub roles: Vec<(String, RoleConfig)>,
}

/// Entry `i` is the first one named `key`.
pub open spec fn first_named(roles: Seq<(String, RoleConfig)>, key: Seq<char>, i: int) -> bool {
    &&& 0 <= i < roles.len()
    &&& roles[i].0@ == key
    &&& forall|j: int| 0 <= j < i ==> roles[j].0@ != key
}

/// Some entry is named `key`.
pub open spec fn has_named(roles: Seq<(String, RoleConfig)>, key: Seq<char>) -> bool {
    exists|i: int| 0 <= i < roles.len() && roles[i].0@ == key
}

/// No two entries share a name.
pub open spec fn keys_unique(roles: Seq<(String, RoleConfig)>) -> bool {
    forall|i: int, j: int| 0 <= i < j < roles.len() ==> roles[i].0@ != roles[j].0@
}

/// Under unique names, the first entry named `key` is the only one.
pub proof fn lemma_first_named_is_only(roles: Seq<(String, RoleConfig)>, key: Seq<char>, i: int)
    requires
        keys_unique(roles),
        first_named(roles, key, i),
    ensures
        forall|j: int| 0 <= j < roles.len() && roles[j].0@ == key ==> j == i,
{
    assert forall|j: int| 0 <= j < roles.len() && roles[j].0@ == key implies j == i by {
        if j < i {
        } else if i < j {
            assert(roles[i].0@ != roles[j].0@);
        }
    }
}

impl AgentRegistryConfig {
    /// Whether the names of the table are unique.
    pub fn has_unique_keys(&self) -> (r: bool)
        ensures
            r == keys_unique(self.roles@),
    {
        let n = self.roles.len();
        let mut i: usize = 0;
        while i < n
            invariant
                n == self.roles@.len(),
                i <= n,
                forall|a: int, b: int| 0 <= a < b < n && a < i ==> self.roles@[a].0@ != self.roles@[b].0@,
            decreases n - i,
        {
            let mut j: usize = i + 1;
            while j < n
                invariant
                    n == self.roles@.len(),
                    i < n,
                    i < j <= n,
                    forall|a: int, b: int| 0 <= a < b < n && a < i ==> self.roles@[a].0@ != self.roles@[b].0@,
                    forall|b: int| i < b < j ==> self.roles@[i as int].0@ != self.roles@[b].0@,
                decreases n - j,
            {
                if str_eq(self.roles[i].0.as_str(), self.roles[j].0.as_str()) {
                    return false;
                }
                j += 1;
            }
            i += 1;
        }
        true
    }

    /// The index of the configuration named `key`.
    pub fn position(&self, key: &str) -> (r: Option<usize>)
        ensures
            match r {
                Some(i) => first_named(self.roles@, key@, i as int),
                None => !has_named(self.roles@, key@),
            },
    {
        let mut i: usize = 0;
        while i < self.roles.len()
            invariant
                i <= self.roles@.len(),
                forall|j: int| 0 <= j < i ==> self.roles@[j].0@ != key@,
            decreases self.roles@.len() - i,
        {
            if str_eq(self.roles[i].0.as_str(), key) {
                return Some(i);
            }
            i += 1;
        }
        None
    }
}

/// The name under which a role is configured: its name in lower case.
pub open spec fn role_key(role: Role) -> Seq<char> {
    match role {
        Role::Orchestrator => "orchestrator"@,
        Role::Planner => "planner"@,
        Role::Builder => "builder"@,
        Role::Auditor => "auditor"@,
    }
}

pub fn role_key_string(role: Role) -> (s: String)
    ensures
        s@ == role_key(role),
{
    match role {
        Role::Orchestrator => String::from_str("orchestrator"),
        Role::Planner => String::from_str("planner"),
        Role::Builder => String::from_str("builder"),
        Role::Auditor => String::from_str("auditor"),
    }
}

/// A role gets the builtin tools when it may edit or run commands unasked.
pub open spec fn wants_tools(p: Permissions) -> bool {
    p.edit == Permission::Allow || p.bash == Permission::Allow
}

/// What building the agent of a role takes: the configuration found for it,
/// the preamble to use when its file cannot be read, and whether it gets the
/// builtin tools.
#[derive(Debug)]
pub struct BuildPlan {
    pub role: Role,
    pub key: String,
    pub model: String,
    pub preamble_path: String,
    pub fallback_preamble: String,
    pub with_tools: bool,
    pub permissions: Permissions,
}

/// Why a role's agent cannot be built.
#[derive(Debug, PartialEq, Eq)]
pub enum RegistryError {
    /// No configuration is named after the role (its key is given).
    MissingRole(String),
}

/// The fallback preamble of a role that has no readable preamble file.
pub open spec fn fallback_preamble(key: Seq<char>) -> Seq<char> {
    "You are the "@ + key + " agent."@
}

/// The message of a registry error.
pub open spec fn registry_error_message(e: RegistryError) -> Seq<char> {
    match e {
        RegistryError::MissingRole(key) => "no config for role "@ + key@,
    }
}

impl RegistryError {
    pub fn message(&self) -> (s: String)
        ensures
            s@ == registry_error_message(*self),
    {
        match self {
            RegistryError::MissingRole(key) => {
                let s = String::from_str("no config for role ");
                s.concat(key.as_str())
            },
        }
    }
}

/// `plan` is what building the agent of `role` takes under `cfg`, whose
/// entry `i` is the one named after the role.
pub open spec fn plan_from(plan: BuildPlan, cfg: AgentRegistryConfig, role: Role, i: int) -> bool {
    let rc = cfg.roles@[i].1;
    &&& first_named(cfg.roles@, role_key(role), i)
    &&& forall|j: int| 0 <= j < cfg.roles@.len() && cfg.roles@[j].0@ == role_key(role) ==> j == i
    &&& plan.role == role
    &&& plan.key@ == role_key(role)
    &&& plan.model@ == rc.model@
    &&& plan.preamble_path@ == rc.preamble@
    &&& plan.fallback_preamble@ == fallback_preamble(role_key(role))
    &&& plan.with_tools == wants_tools(rc.permissions)
    &&& plan.permissions == rc.permissions
}

/// The outcome of planning the agent of `role` under `cfg`: a plan built from
/// the first entry named after the role, or the missing role's key.
pub open spec fn plan_outcome(r: Result<BuildPlan, RegistryError>, cfg: AgentRegistryConfig, role: Role) -> bool {
    match r {
        Ok(plan) => exists|i: int| plan_from(plan, cfg, role, i),
        Err(RegistryError::MissingRole(k)) => !has_named(cfg.roles@, role_key(role)) && k@
            == role_key(role),
    }
}

/// Calls `Arc::clone`: one more handle on the same value.
#[verifier::external_body]
fn share<T>(a: &Arc<T>) -> (r: Arc<T>)
    ensures
        r == *a,
{
    Arc::clone(a)
}

/// The registry of configured roles. Clones share one configuration.
pub struct AgentRegistry {
    config: Arc<AgentRegistryConfig>,
}

impl AgentRegistry {
    /// The configuration the registry holds.
    pub closed spec fn config(&self) -> AgentRegistryConfig {
        *self.config
    }

    #[verifier::type_invariant]
    spec fn names_unique(&self) -> bool {
        keys_unique(self.config.roles@)
    }

    /// A registry of a table whose names are unique.
    pub fn new(config: AgentRegistryConfig) -> (r: Self)
        requires
            keys_unique(config.roles@),
        ensures
            r.config() == config,
    {
        AgentRegistry { config: Arc::new(config) }
    }

    /// Another handle on the same configuration.
    pub fn clone(&self) -> (r: Self)
        ensures
            r.config() == self.config(),
    {
        proof {
            use_type_invariant(self);
        }
        AgentRegistry { config: share(&self.config) }
    }

    /// The configuration of `role`, if there is one.
    pub fn role_config(&self, role: Role) -> (r: Option<&RoleConfig>)
        ensures
            match r {
                Some(rc) => exists|i: int|
                    first_named(self.config().roles@, role_key(role), i) && (forall|j: int|
                        0 <= j < self.config().roles@.len() && self.config().roles@[j].0@
                            == role_key(role) ==> j == i) && *rc == self.config().roles@[i].1,
                None => !has_named(self.config().roles@, role_key(role)),
            },
    {
        proof {
            use_type_invariant(self);
        }
        let key = role_key_string(role);
        match self.config.position(key.as_str()) {
            Some(i) => {
                let rc = &self.config.roles[i].1;
                proof {
                    lemma_first_named_is_only(self.config().roles@, role_key(role), i as int);
                }
                assert(first_named(self.config().roles@, role_key(role), i as int));
                Some(rc)
            },
            None => None,
        }
    }

    /// What building the agent of `role` takes, or the error when no
    /// configuration is named after it.
    pub fn build_plan(&self, role: Role) -> (r: Result<BuildPlan, RegistryError>)
        ensures
            plan_outcome(r, self.config(), role),
            r matches Ok(plan) ==> plan.with_tools == (plan.permissions.edit == Permission::Allow
                || plan.permissions.bash == Permission::Allow),
    {
        proof {
            use_type_invariant(self);
        }
        let key = role_key_string(role);
        match self.config.position(key.as_str()) {
            None => Err(RegistryError::MissingRole(key)),
            Some(i) => {
                let rc = &self.config.roles[i].1;
                let fallback = String::from_str("You are the ").concat(key.as_str()).concat(
                    " agent.",
                );
                let with_tools = rc.permissions.edit == Permission::Allow || rc.permissions.bash
                    == Permission::Allow;
                let plan = BuildPlan {
                    role,
                    key,
                    model: rc.model.clone(),
                    preamble_path: rc.preamble.clone(),
                    fallback_preamble: fallback,
                    with_tools,
                    permissions: rc.permissions,
                };
                proof {
                    lemma_first_named_is_only(self.config().roles@, role_key(role), i as int);
                }
                assert(plan_from(plan, self.config(), role, i as int));
                Ok(plan)
            },
        }
    }
}

/// What a user message asks for.
#[derive(Clone, Copy, Debug, PartialEq, Eq, Structural)]
pub enum Intent {
    Implement,
    Investigate,
    Chat,
}

/// The lower-cased message names a change to make.
pub open spec fn asks_to_implement(m: Seq<char>) -> bool {
    ||| contains_sub(m, "implement"@)
    ||| contains_sub(m, "add"@)
    ||| contains_sub(m, "create"@)
    ||| contains_sub(m, "fix"@)
    ||| contains_sub(m, "write"@)
    ||| contains_sub(m, "build"@)
}

/// The lower-cased message asks to look into something.
pub open spec fn asks_to_investigate(m: Seq<char>) -> bool {
    ||| contains_sub(m, "look into"@)
    ||| contains_sub(m, "investigate"@)
    ||| contains_sub(m, "check"@)
    ||| contains_sub(m, "find"@)
    ||| contains_sub(m, "how does"@)
}

/// The intent of an already lower-cased message: a change before an
/// investigation, and chat when it is neither.
pub open spec fn intent_of(m: Seq<char>) -> Intent {
    if asks_to_implement(m) {
        Intent::Implement
    } else if asks_to_investigate(m) {
        Intent::Investigate
    } else {
        Intent::Chat
    }
}

/// The intent of a message that is already in lower case.
pub fn classify_lowercase(m: &str) -> (r: Intent)
    ensures
        r == intent_of(m@),
{
    if str_contains(m, "implement") || str_contains(m, "add") || str_contains(m, "create")
        || str_contains(m, "fix") || str_contains(m, "write") || str_contains(m, "build") {
        Intent::Implement
    } else if str_contains(m, "look into") || str_contains(m, "investigate") || str_contains(
        m,
        "check",
    ) || str_contains(m, "find") || str_contains(m, "how does") {
        Intent::Investigate
    } else {
        Intent::Chat
    }
}

/// Classifies a message by the keywords of its lower-case form.
pub fn classify(message: &str) -> (r: Intent)
    ensures
        r == intent_of(lowercase(message@)),
        is_ascii_chars(message@) ==> r == intent_of(ascii_lower(message@)),
{
    let m = to_lowercase(message);
    classify_lowercase(m.as_str())
}

/// The role that handles an intent: changes go to the builder, investigations
/// to the planner, the rest to the orchestrator.
pub open spec fn role_for(intent: Intent) -> Role {
    match intent {
        Intent::Implement => Role::Builder,
        Intent::Investigate => Role::Planner,
        Intent::Chat => Role::Orchestrator,
    }
}

pub fn role_for_intent(intent: Intent) -> (r: Role)
    ensures
        r == role_for(intent),
{
    match intent {
        Intent::Implement => Role::Builder,
        Intent::Investigate => Role::Planner,
        Intent::Chat => Role::Orchestrator,
    }
}

/// Classifies each message and hands it to the role agent for its intent.
pub struct Orchestrator {
    registry: AgentRegistry,
}

impl Orchestrator {
    /// The configuration of the registry the orchestrator routes through.
    pub closed spec fn config(&self) -> AgentRegistryConfig {
        self.registry.config()
    }

    pub fn new(registry: AgentRegistry) -> (o: Self)
        ensures
            o.config() == registry.config(),
    {
        Orchestrator { registry }
    }

    /// The agent to build for a message: that of the role for its intent.
    pub fn route(&self, message: &str) -> (r: Result<BuildPlan, RegistryError>)
        ensures
            plan_outcome(r, self.config(), role_for(intent_of(lowercase(message@)))),
    {
        let intent = classify(message);
        let role = role_for_intent(intent);
        self.registry.build_plan(role)
    }
}

/// The case of ASCII letters does not change the intent of an ASCII
/// message: it, its upper-case and its lower-case form classify alike
/// (`classify` gives `intent_of(ascii_lower(m))` on ASCII text).
pub proof fn lemma_classify_ignores_ascii_case(m: Seq<char>)
    requires
        is_ascii_chars(m),
    ensures
        is_ascii_chars(ascii_upper(m)),
        is_ascii_chars(ascii_lower(m)),
        intent_of(ascii_lower(ascii_upper(m))) == intent_of(ascii_lower(m)),
        intent_of(ascii_lower(ascii_lower(m))) == intent_of(ascii_lower(m)),
{
    lemma_ascii_case_folds(m);
}

/// Each keyword of a change (`implement`, `add`, `create`, `fix`, `write`,
/// `build`) makes a (lower-cased) message a change, whatever else it says;
/// without one of those, each keyword of an investigation (`look into`,
/// `investigate`, `check`, `find`, `how does`) makes it an investigation; a
/// message is chat exactly when it holds none of them.
pub proof fn lemma_intent_keywords(m: Seq<char>)
    ensures
        contains_sub(m, "implement"@) ==> intent_of(m) == Intent::Implement,
        contains_sub(m, "add"@) ==> intent_of(m) == Intent::Implement,
        contains_sub(m, "create"@) ==> intent_of(m) == Intent::Implement,
        contains_sub(m, "fix"@) ==> intent_of(m) == Intent::Implement,
        contains_sub(m, "write"@) ==> intent_of(m) == Intent::Implement,
        contains_sub(m, "build"@) ==> intent_of(m) == Intent::Implement,
        (!contains_sub(m, "implement"@) && !contains_sub(m, "add"@) && !contains_sub(m, "create"@) && !contains_sub(m, "fix"@) && !contains_sub(m, "write"@) && !contains_sub(m, "build"@) && contains_sub(m, "look into"@)) ==> intent_of(m) == Intent::Investigate,
        (!contains_sub(m, "implement"@) && !contains_sub(m, "add"@) && !contains_sub(m, "create"@) && !contains_sub(m, "fix"@) && !contains_sub(m, "write"@) && !contains_sub(m, "build"@) && contains_sub(m, "investigate"@)) ==> intent_of(m) == Intent::Investigate,
        (!contains_sub(m, "implement"@) && !contains_sub(m, "add"@) && !contains_sub(m, "create"@) && !contains_sub(m, "fix"@) && !contains_sub(m, "write"@) && !contains_sub(m, "build"@) && contains_sub(m, "check"@)) ==> intent_of(m) == Intent::Investigate,
        (!contains_sub(m, "implement"@) && !contains_sub(m, "add"@) && !contains_sub(m, "create"@) && !contains_sub(m, "fix"@) && !contains_sub(m, "write"@) && !contains_sub(m, "build"@) && contains_sub(m, "find"@)) ==> intent_of(m) == Intent::Investigate,
        (!contains_sub(m, "implement"@) && !contains_sub(m, "add"@) && !contains_sub(m, "create"@) && !contains_sub(m, "fix"@) && !contains_sub(m, "write"@) && !contains_sub(m, "build"@) && contains_sub(m, "how does"@)) ==> intent_of(m) == Intent::Investigate,
        (intent_of(m) == Intent::Chat) == (!contains_sub(m, "implement"@) && !contains_sub(m, "add"@) && !contains_sub(m, "create"@) && !contains_sub(m, "fix"@) && !contains_sub(m, "write"@) && !contains_sub(m, "build"@) && !contains_sub(m, "look into"@) && !contains_sub(m, "investigate"@) && !contains_sub(m, "check"@) && !contains_sub(m, "find"@) && !contains_sub(m, "how does"@)),
{
}

/// A role gets the builtin tools exactly when it may edit or run commands
/// unasked: an `Allow` on either permission is enough, and without one it
/// gets none.
pub proof fn lemma_tools_follow_permissions(p: Permissions)
    ensures
        p.edit == Permission::Allow ==> wants_tools(p),
        p.bash == Permission::Allow ==> wants_tools(p),
        (p.edit != Permission::Allow && p.bash != Permission::Allow) ==> !wants_tools(p),
{
}

} // verus!
