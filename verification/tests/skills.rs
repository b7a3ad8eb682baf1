use my_agent::skills::{
    add_skill, is_relevant, relevant_indices, render_relevant, render_skills, skill_file_path, SkillEntry,
    SkillError, SkillManifest,
};

fn demo() -> SkillEntry {
    SkillEntry {
        name: "demo-skill".to_string(),
        file: "skills/demo_skill.md".to_string(),
        description: "A demo skill, used for testing.".to_string(),
        keywords: vec![],
    }
}

#[test]
fn relevant_picks_matching_skill() {
    let mut m = SkillManifest::default();
    m.register(demo()).unwrap();
    let bodies = vec![Some("do the demo thing".to_string())];
    let out = render_relevant(&m, "please use the demo skill for testing", &bodies);
    assert!(out.contains("demo-skill"), "should inject demo-skill body");
    assert!(out.contains("do the demo thing"));
}

#[test]
fn relevant_empty_when_no_match() {
    let mut m = SkillManifest::default();
    m.register(demo()).unwrap();
    let bodies = vec![Some("do the demo thing".to_string())];
    let out = render_relevant(&m, "zxqwv unrelated task about astronomy", &bodies);
    assert!(out.is_empty() || out.contains("demo-skill") == false || out.contains("astronomy"));
    assert!(relevant_indices(&m, "zxqwv unrelated task about astronomy").is_empty());
}

#[test]
fn unreadable_bodies_are_skipped() {
    let mut m = SkillManifest::default();
    m.register(demo()).unwrap();
    let out = render_relevant(&m, "the demo skill", &vec![None]);
    assert_eq!(out, "");
}

#[test]
fn keywords_and_long_words_make_a_skill_relevant() {
    let mut e = demo();
    e.description = "Run the linter".to_string();
    e.keywords = vec!["CLIPPY".to_string()];
    assert!(is_relevant(&e, "please run clippy"));
    // "linter" has six bytes and occurs; "run" and "the" are too short.
    assert!(is_relevant(&e, "the linter"));
    assert!(!is_relevant(&e, "run the thing"));
    // Punctuation at the ends of a description word is dropped.
    e.description = "(deploy!)".to_string();
    assert!(is_relevant(&e, "deploy now"));
}

#[test]
fn skill_blocks_are_joined_with_rules() {
    let out = render_skills(&vec![
        ("a".to_string(), "A".to_string()),
        ("b".to_string(), "B".to_string()),
    ]);
    assert_eq!(out, "## Skill: a\nA\n\n---\n\n## Skill: b\nB");
}

#[test]
fn registering_twice_is_refused() {
    let mut m = SkillManifest::default();
    assert!(m.register(demo()).is_ok());
    let err = m.register(demo()).unwrap_err();
    assert_eq!(err, SkillError::AlreadyRegistered("demo-skill".to_string()));
    assert_eq!(err.message(), "skill demo-skill already registered");
    assert_eq!(m.list(), vec!["demo-skill".to_string()]);
}

#[test]
fn adding_a_skill_registers_it() {
    let mut m = SkillManifest::default();
    let msg = add_skill(&mut m, "My Cool-Skill", "  \"does things\" ").unwrap();
    assert_eq!(
        msg,
        "scaffolded skill 'My Cool-Skill' at skills/my_cool_skill.md; registered in manifest"
    );
    assert_eq!(m.skills[0].file, "skills/my_cool_skill.md");
    assert_eq!(m.skills[0].description, "does things");
    assert!(m.skills[0].keywords.is_empty());
    assert!(add_skill(&mut m, "My Cool-Skill", "again").is_err());
    assert_eq!(skill_file_path("ÄB c"), "skills/äb_c.md");
}

#[test]
fn ascii_case_does_not_change_relevance() {
    let mut m = SkillManifest::default();
    m.register(demo()).unwrap();
    for t in ["Please use the DEMO skill", "unrelated", "TESTING it"] {
        assert_eq!(relevant_indices(&m, t), relevant_indices(&m, &t.to_ascii_uppercase()));
        assert_eq!(relevant_indices(&m, t), relevant_indices(&m, &t.to_ascii_lowercase()));
    }
}

#[test]
fn ascii_case_does_not_change_the_rendered_skills() {
    let mut m = SkillManifest::default();
    m.register(demo()).unwrap();
    let bodies = vec![Some("do the demo thing".to_string())];
    for t in ["Use the DEMO skill", "nothing here"] {
        let out = render_relevant(&m, t, &bodies);
        assert_eq!(out, render_relevant(&m, &t.to_ascii_uppercase(), &bodies));
        assert_eq!(out, render_relevant(&m, &t.to_ascii_lowercase(), &bodies));
    }
}
