use my_agent::evolution::prompt_evolve::{
    benchmark_tasks, decide_evolution, judgement_passes, prompt_tag, proposal_prompt, score,
    verdict_prompt,
};
use my_agent::evolution::self_modify::{build_outcome, plan_code_edit, CodeEdit};

#[test]
fn promotion_needs_a_score_no_lower() {
    let up = decide_evolution(2, 3);
    assert!(up.promote);
    assert_eq!(up.message, "promoted new prompt (score 3 >= 2); old tagged in git");
    let tie = decide_evolution(2, 2);
    assert!(tie.promote);
    let down = decide_evolution(3, 1);
    assert!(!down.promote);
    assert_eq!(down.message, "kept old prompt (new score 1 < 3); no change");
}

#[test]
fn scores_count_passing_judgements() {
    let js = vec!["PASS".to_string(), "fail".to_string(), "pass.".to_string()];
    assert_eq!(score(&js), 2);
    assert!(judgement_passes("Pass"));
    assert!(!judgement_passes("FAIL"));
    assert_eq!(benchmark_tasks().len(), 3);
}

#[test]
fn evolution_prompts_and_tags() {
    assert_eq!(prompt_tag(1700000000), "prompt-v1700000000");
    assert_eq!(prompt_tag(0), "prompt-v0");
    assert!(proposal_prompt("OLD").ends_with("\n\n当前提示词：\nOLD"));
    assert_eq!(
        verdict_prompt("t", "a"),
        "下面的回答是否正确地、有效地解决了该任务？\nTask: t\nAnswer: a\n恰好回复一行：PASS 或 FAIL。"
    );
}

#[test]
fn code_edits_are_planned_and_judged() {
    match plan_code_edit("src/x.rs", "fn a() {}\nfn a() {}", "a()", "b()") {
        CodeEdit::Apply { backup, updated } => {
            assert_eq!(backup, "src/x.rs.evo.bak");
            assert_eq!(updated, "fn b() {}\nfn a() {}");
        }
        CodeEdit::NotFound(_) => panic!("the text occurs"),
    }
    match plan_code_edit("src/x.rs", "abc", "zzz", "q") {
        CodeEdit::NotFound(msg) => assert_eq!(msg, "old text not found in src/x.rs"),
        CodeEdit::Apply { .. } => panic!("the text does not occur"),
    }
    assert_eq!(build_outcome("f.rs", true, ""), Ok("evolved f.rs (build passed)".to_string()));
    assert_eq!(
        build_outcome("f.rs", false, "E0308"),
        Err("build failed; reverted f.rs. error:\nE0308".to_string())
    );
}
