use my_agent::registry::{AgentRegistry, AgentRegistryConfig, Permission, Permissions, RoleConfig};
use my_agent::reviewer::{
    after_spec_stage, ReviewStep, judge_quality_stage, judge_spec_stage, quality_stage_prompt, spec_stage_prompt, ReviewGate,
    Verdict,
};

#[test]
fn spec_stage_approval_passes_on() {
    assert_eq!(judge_spec_stage("approve"), None);
    assert_eq!(judge_spec_stage("Looks good.\nAPPROVE"), None);
}

#[test]
fn spec_stage_rejection_keeps_the_rejecting_line() {
    assert_eq!(
        judge_spec_stage("Hmm.\r\nreject: missing tests\r\nmore"),
        Some(Verdict::Reject("reject: missing tests".to_string()))
    );
    assert_eq!(
        judge_spec_stage("no idea"),
        Some(Verdict::Reject("spec compliance failed".to_string()))
    );
}

#[test]
fn quality_stage_verdicts() {
    assert_eq!(judge_quality_stage("APPROVE"), Verdict::Approve);
    assert_eq!(
        judge_quality_stage("x\nClarify: which file?"),
        Verdict::Clarify("Clarify: which file?".to_string())
    );
    assert_eq!(
        judge_quality_stage("REJECT: unsafe unwrap\n"),
        Verdict::Reject("REJECT: unsafe unwrap".to_string())
    );
    assert_eq!(judge_quality_stage("meh"), Verdict::Reject("quality failed".to_string()));
    // An approval wins over anything else in the answer.
    assert_eq!(judge_quality_stage("REJECT then APPROVE"), Verdict::Approve);
}

#[test]
fn review_prompts_embed_task_and_work() {
    let p = spec_stage_prompt("T", "W");
    assert!(p.starts_with("你是规格符合性评审员（第 1/2 阶段）。请求的任务：\nT\n\n产出的工作：\nW\n\n"));
    assert!(p.ends_with("'APPROVE' 或 'REJECT: <缺失或错误之处>'。"));
    let q = quality_stage_prompt("T", "W");
    assert!(q.contains("\nT\n\n产出的工作：\nW\n\n"));
    assert!(q.ends_with("'CLARIFY: <疑问>'。"));
}

#[test]
fn reviews_use_the_auditor() {
    let cfg = AgentRegistryConfig {
        roles: vec![(
            "auditor".to_string(),
            RoleConfig {
                model: "judge".to_string(),
                preamble: "a.md".to_string(),
                permissions: Permissions { edit: Permission::Deny, bash: Permission::Deny },
            },
        )],
    };
    let reviews = ReviewGate::new(AgentRegistry::new(cfg));
    assert_eq!(reviews.auditor_plan().unwrap().model, "judge");
}

#[test]
fn spec_stage_leads_to_quality_question_or_verdict() {
    assert_eq!(
        after_spec_stage("T", "W", "APPROVE"),
        ReviewStep::AskQuality(quality_stage_prompt("T", "W"))
    );
    assert_eq!(
        after_spec_stage("T", "W", "REJECT: no"),
        ReviewStep::Done(Verdict::Reject("REJECT: no".to_string()))
    );
}
