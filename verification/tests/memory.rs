use my_agent::memory::{join, MemoryConfig, MemoryStore, Rule};

#[test]
fn rule_escalates_once_at_threshold() {
    let mut rules: Vec<Rule> = Vec::new();
    assert!(!MemoryStore::observe_rule(&mut rules, "always run tests", 3));
    assert!(!MemoryStore::observe_rule(&mut rules, "always run tests", 3));
    assert!(MemoryStore::observe_rule(&mut rules, "always run tests", 3));
    assert!(!MemoryStore::observe_rule(&mut rules, "always run tests", 3));
    assert_eq!(rules.len(), 1);
    assert_eq!(rules[0].count, 4);
    assert!(rules[0].written_to);
}

#[test]
fn rules_are_counted_separately() {
    let mut rules: Vec<Rule> = Vec::new();
    MemoryStore::observe_rule(&mut rules, "a", 5);
    MemoryStore::observe_rule(&mut rules, "b", 5);
    MemoryStore::observe_rule(&mut rules, "a", 5);
    assert_eq!(rules.len(), 2);
    assert_eq!((rules[0].text.as_str(), rules[0].count), ("a", 2));
    assert_eq!((rules[1].text.as_str(), rules[1].count), ("b", 1));
    assert!(!rules[0].written_to && !rules[1].written_to);
}

#[test]
fn low_threshold_escalates_a_new_rule_at_once() {
    let mut rules: Vec<Rule> = Vec::new();
    assert!(MemoryStore::observe_rule(&mut rules, "x", 1));
    assert!(rules[0].written_to);
    let mut rules: Vec<Rule> = Vec::new();
    assert!(MemoryStore::observe_rule(&mut rules, "x", 0));
}

#[test]
fn already_written_rule_never_escalates_again() {
    let mut rules = vec![Rule { text: "r".to_string(), count: 9, written_to: true }];
    assert!(!MemoryStore::observe_rule(&mut rules, "r", 2));
    assert_eq!(rules[0].count, 10);
    assert!(rules[0].written_to);
}

#[test]
fn store_paths_join_like_paths() {
    assert_eq!(join("memory", "conv.jsonl"), "memory/conv.jsonl");
    assert_eq!(join("memory/", "conv.jsonl"), "memory/conv.jsonl");
    assert_eq!(join("", "conv.jsonl"), "conv.jsonl");
    assert_eq!(join("memory", "/abs/rules.json"), "/abs/rules.json");
    let cfg = MemoryConfig {
        dir: "mem".to_string(),
        conversation_file: "c.jsonl".to_string(),
        lessons_file: "l.jsonl".to_string(),
        rules_file: "r.json".to_string(),
    };
    let m = MemoryStore::new(&cfg);
    assert_eq!(m.dir(), "mem");
    assert_eq!(m.conversation_file(), "mem/c.jsonl");
    assert_eq!(m.lessons_file(), "mem/l.jsonl");
    assert_eq!(m.rules_file(), "mem/r.json");
}

#[test]
fn escalated_section_text() {
    assert_eq!(
        MemoryStore::escalated_rule_section("be brief"),
        "\n## Escalated rule\n- be brief\n"
    );
}

#[test]
fn only_the_first_matching_rule_counts() {
    let mut rules = vec![
        Rule { text: "r".to_string(), count: 1, written_to: false },
        Rule { text: "r".to_string(), count: u32::MAX, written_to: false },
    ];
    assert!(MemoryStore::observe_rule(&mut rules, "r", 2));
    assert_eq!(rules[0].count, 2);
    assert_eq!(rules[1].count, u32::MAX);
}
