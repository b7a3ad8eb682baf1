use my_agent::repl::{default_model_from_config, threshold_from_config, current_model, escalation_threshold, parse_command, Command};

#[test]
fn simple_commands() {
    assert_eq!(parse_command("   "), Command::Empty);
    assert_eq!(parse_command(" quit "), Command::Quit);
    assert_eq!(parse_command("model"), Command::ShowModel);
    assert_eq!(parse_command("model  deepseek-chat "), Command::SetModel("deepseek-chat".to_string()));
    assert_eq!(parse_command("skills"), Command::ListSkills);
    assert_eq!(parse_command("evolve"), Command::Evolve);
    assert_eq!(parse_command("evolve now"), Command::Evolve);
    assert_eq!(parse_command("write a parser"), Command::Goal("write a parser".to_string()));
    assert_eq!(parse_command("skills please"), Command::Goal("skills please".to_string()));
}

#[test]
fn evolve_code_arguments() {
    assert_eq!(
        parse_command("evolve-code src/a.rs \"old\" new text here"),
        Command::EvolveCode {
            file: "src/a.rs".to_string(),
            old: "old".to_string(),
            new: "new text here".to_string(),
        }
    );
    assert_eq!(
        parse_command("evolve-code a b"),
        Command::Usage("usage: evolve-code <file> <old_text> <new_text>".to_string())
    );
}

#[test]
fn add_commands() {
    assert_eq!(
        parse_command("add-tool grep searches files"),
        Command::AddTool { name: "grep".to_string(), description: "searches files".to_string() }
    );
    assert_eq!(
        parse_command("add-tool grep"),
        Command::Usage("usage: add-tool <name> <description>".to_string())
    );
    assert_eq!(
        parse_command("add-skill deploy ship it"),
        Command::AddSkill {
            name: "deploy".to_string(),
            description: "ship it".to_string(),
            body: "# deploy\n\nship it\n\n(Describe the step-by-step instructions here.)\n".to_string(),
        }
    );
    assert_eq!(
        parse_command("add-skill"),
        Command::Usage("usage: add-skill <name> <description>".to_string())
    );
}

#[test]
fn model_and_threshold_settings() {
    assert_eq!(current_model(Some("s".to_string()), Some("d".to_string())), "s");
    assert_eq!(current_model(None, Some("d".to_string())), "d");
    assert_eq!(current_model(None, None), "deepseek-v4-pro");
    assert_eq!(escalation_threshold(None), 3);
    assert_eq!(escalation_threshold(Some(5)), 5);
    assert_eq!(escalation_threshold(Some(-1)), u32::MAX);
    assert_eq!(escalation_threshold(Some(1 << 32)), 0);
}

#[test]
fn settings_are_read_from_toml() {
    let text = "[agent]\ndefault_model = \"deepseek-chat\"\n\n[evolution]\nrule_escalation_threshold = 5\n";
    assert_eq!(threshold_from_config(text), Ok(5));
    assert_eq!(default_model_from_config(text), Some("deepseek-chat".to_string()));
    assert_eq!(threshold_from_config("[agent]\n"), Ok(3));
    assert_eq!(threshold_from_config("[evolution]\nrule_escalation_threshold = \"x\"\n"), Ok(3));
    assert_eq!(default_model_from_config("[agent]\ndefault_model = 3\n"), None);
    assert!(threshold_from_config("this is = = not toml").is_err());
    assert_eq!(default_model_from_config("this is = = not toml"), None);
}
