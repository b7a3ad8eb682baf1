use my_agent::registry::{
    classify, classify_lowercase, role_for_intent, AgentRegistry, AgentRegistryConfig, Intent,
    Orchestrator, Permission, Permissions, RegistryError, Role, RoleConfig, ToolPerms,
};

fn role(model: &str, preamble: &str, edit: Permission, bash: Permission) -> RoleConfig {
    RoleConfig {
        model: model.to_string(),
        preamble: preamble.to_string(),
        permissions: Permissions { edit, bash },
    }
}

fn config() -> AgentRegistryConfig {
    AgentRegistryConfig {
        roles: vec![
            ("builder".to_string(), role("m-build", "prompts/builder.md", Permission::Ask, Permission::Allow)),
            ("planner".to_string(), role("m-plan", "prompts/planner.md", Permission::Deny, Permission::Deny)),
            ("tester".to_string(), role("m-other", "other.md", Permission::Deny, Permission::Deny)),
        ],
    }
}

#[test]
fn intents_are_classified_by_keywords() {
    assert_eq!(classify("Please IMPLEMENT a parser"), Intent::Implement);
    assert_eq!(classify("fix the bug"), Intent::Implement);
    assert_eq!(classify("Look into the crash"), Intent::Investigate);
    assert_eq!(classify("how does this work"), Intent::Investigate);
    assert_eq!(classify("hello there"), Intent::Chat);
    // A change wins over an investigation.
    assert_eq!(classify("check and fix it"), Intent::Implement);
    // Keywords match inside words too: "address" holds "add".
    assert_eq!(classify("what is my address"), Intent::Implement);
    assert_eq!(classify_lowercase("FIND"), Intent::Chat);
    assert_eq!(classify_lowercase("find"), Intent::Investigate);
}

#[test]
fn intents_route_to_roles() {
    assert_eq!(role_for_intent(Intent::Implement), Role::Builder);
    assert_eq!(role_for_intent(Intent::Investigate), Role::Planner);
    assert_eq!(role_for_intent(Intent::Chat), Role::Orchestrator);
}

#[test]
fn build_plan_uses_the_named_config() {
    let reg = AgentRegistry::new(config());
    let plan = reg.build_plan(Role::Builder).unwrap();
    assert_eq!(plan.key, "builder");
    assert_eq!(plan.model, "m-build");
    assert_eq!(plan.preamble_path, "prompts/builder.md");
    assert_eq!(plan.fallback_preamble, "You are the builder agent.");
    assert!(plan.with_tools);
    let planner = reg.build_plan(Role::Planner).unwrap();
    assert!(!planner.with_tools);
    assert_eq!(planner.permissions.edit, Permission::Deny);
}

#[test]
fn missing_role_is_an_error() {
    let reg = AgentRegistry::new(config());
    let err = reg.build_plan(Role::Auditor).unwrap_err();
    assert_eq!(err, RegistryError::MissingRole("auditor".to_string()));
    assert_eq!(err.message(), "no config for role auditor");
    assert!(reg.role_config(Role::Orchestrator).is_none());
    assert_eq!(reg.role_config(Role::Planner).unwrap().model, "m-plan");
}

#[test]
fn clones_share_the_configuration() {
    let reg = AgentRegistry::new(config());
    let other = reg.clone();
    assert_eq!(other.build_plan(Role::Builder).unwrap().model, "m-build");
    assert_eq!(config().position("planner"), Some(1));
    assert_eq!(config().position("Planner"), None);
}

#[test]
fn orchestrator_routes_messages() {
    let orch = Orchestrator::new(AgentRegistry::new(config()));
    assert_eq!(orch.route("please build it").unwrap().role, Role::Builder);
    assert_eq!(orch.route("investigate the logs").unwrap().role, Role::Planner);
    assert_eq!(
        orch.route("good morning").unwrap_err(),
        RegistryError::MissingRole("orchestrator".to_string())
    );
}

#[test]
fn permissions_default_to_allow() {
    assert_eq!(Permission::default(), Permission::Allow);
    let p = Permissions::default();
    assert_eq!((p.edit, p.bash), (Permission::Allow, Permission::Allow));
    let t = ToolPerms::from_permissions(Permissions { edit: Permission::Ask, bash: Permission::Deny });
    assert_eq!(t.read_file, Permission::Allow);
    assert_eq!(t.run_bash_readonly, Permission::Allow);
    assert_eq!(t.run_bash_mutating, Permission::Deny);
    assert_eq!(t.edit_file, Permission::Ask);
}

#[test]
fn duplicate_role_names_are_detected() {
    assert!(config().has_unique_keys());
    let mut dup = config();
    dup.roles.push(("planner".to_string(), role("x", "y", Permission::Ask, Permission::Ask)));
    assert!(!dup.has_unique_keys());
    assert!(AgentRegistryConfig { roles: vec![] }.has_unique_keys());
}

#[test]
fn ascii_case_does_not_change_the_intent() {
    for m in ["Please Implement X", "look INTO it", "Hello", "how DOES it work"] {
        assert_eq!(classify(m), classify(&m.to_ascii_uppercase()));
        assert_eq!(classify(m), classify(&m.to_ascii_lowercase()));
    }
}
