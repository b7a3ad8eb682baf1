//! The two-stage review: a task is done only when the auditor approves it
//! first for meeting its specification, then for its code quality.
use vstd::prelude::*;
use crate::registry::{plan_outcome, AgentRegistry, BuildPlan, RegistryError, Role};
use crate::text::{chars_of, contains_sub, lines, lines_chars, str_contains, string_from_chars};
use crate::unicode::{to_uppercase, uppercase};

verus! {

/// The outcome of a review: approved, sent back with feedback, or a question
/// to be answered first.
#[derive(Debug, PartialEq, Eq)]
pub enum Verdict {
    Approve,
    Reject(String),
    Clarify(String),
}

/// The first of the lines whose upper-case form contains `word`.
pub open spec fn first_line_with(ls: Seq<Seq<char>>, word: Seq<char>) -> Option<Seq<char>>
    decreases ls.len(),
{
    if ls.len() == 0 {
        None
    } else if contains_sub(uppercase(ls[0]), word) {
        Some(ls[0])
    } else {
        first_line_with(ls.drop_first(), word)
    }
}

/// The first line of `text` that mentions `word` in upper case, or `default`.
pub open spec fn line_or(text: Seq<char>, word: Seq<char>, default: Seq<char>) -> Seq<char> {
    match first_line_with(lines(text), word) {
        Some(l) => l,
        None => default,
    }
}

/// The first line of `text` whose upper-case form contains `word`.
pub fn find_line_with(text: &str, word: &str) -> (r: Option<String>)
    ensures
        match r {
            Some(l) => first_line_with(lines(text@), word@) == Some(l@),
            None => first_line_with(lines(text@), word@) is None,
        },
{
    let cs = chars_of(text);
    let ls = lines_chars(cs.as_slice());
    let ghost lv = crate::text::views(ls@);
    let mut i: usize = 0;
    assert(lv.subrange(0, lv.len() as int) =~= lv);
    while i < ls.len()
        invariant
            lv == crate::text::views(ls@),
            lv == lines(text@),
            i <= ls@.len(),
            first_line_with(lv, word@) == first_line_with(lv.subrange(i as int, lv.len() as int), word@),
        decreases ls@.len() - i,
    {
        let line = string_from_chars(ls[i].as_slice());
        let up = to_uppercase(line.as_str());
        assert(lv.subrange(i as int, lv.len() as int)[0] == lv[i as int]);
        if str_contains(up.as_str(), word) {
            return Some(line);
        }
        assert(lv.subrange(i as int, lv.len() as int).drop_first() =~= lv.subrange(i + 1, lv.len() as int));
        i += 1;
    }
    None
}

/// The first line of `text` mentioning `word` in upper case, or `default`.
pub fn line_with_or(text: &str, word: &str, default: &str) -> (r: String)
    ensures
        r@ == line_or(text@, word@, default@),
{
    match find_line_with(text, word) {
        Some(l) => l,
        None => String::from_str(default),
    }
}

/// The feedback of a rejection at the specification stage: the answer's
/// first line that rejects.
pub open spec fn spec_stage_feedback(out: Seq<char>) -> Seq<char> {
    line_or(out, "REJECT"@, "spec compliance failed"@)
}

/// Judges the auditor's answer to the specification stage. `None` means it
/// approved and the quality stage comes next.
pub fn judge_spec_stage(out: &str) -> (r: Option<Verdict>)
    ensures
        r is None <==> contains_sub(uppercase(out@), "APPROVE"@),
        r matches Some(v) ==> v matches Verdict::Reject(fb) && fb@ == spec_stage_feedback(out@),
{
    let up = to_uppercase(out);
    if str_contains(up.as_str(), "APPROVE") {
        None
    } else {
        Some(Verdict::Reject(line_with_or(out, "REJECT", "spec compliance failed")))
    }
}

/// `v` is the verdict of the quality stage for the auditor's answer `out`:
/// an approval when it approves, else a question when it asks one, else a
/// rejection; feedback and questions are the answer's first line that says so.
pub open spec fn quality_verdict(v: Verdict, out: Seq<char>) -> bool {
    let up = uppercase(out);
    if contains_sub(up, "APPROVE"@) {
        v is Approve
    } else if contains_sub(up, "CLARIFY"@) {
        v matches Verdict::Clarify(q) && q@ == line_or(out, "CLARIFY"@, ""@)
    } else {
        v matches Verdict::Reject(fb) && fb@ == line_or(out, "REJECT"@, "quality failed"@)
    }
}

/// Judges the auditor's answer to the quality stage.
pub fn judge_quality_stage(out: &str) -> (v: Verdict)
    ensures
        quality_verdict(v, out@),
        (v is Approve) == contains_sub(uppercase(out@), "APPROVE"@),
        (!contains_sub(uppercase(out@), "APPROVE"@) && contains_sub(uppercase(out@), "CLARIFY"@))
            ==> (v matches Verdict::Clarify(q) && q@ == line_or(out@, "CLARIFY"@, ""@)),
        (v is Reject) == (!contains_sub(uppercase(out@), "APPROVE"@) && !contains_sub(
            uppercase(out@),
            "CLARIFY"@,
        )),
{
    let up = to_uppercase(out);
    if str_contains(up.as_str(), "APPROVE") {
        Verdict::Approve
    } else if str_contains(up.as_str(), "CLARIFY") {
        Verdict::Clarify(line_with_or(out, "CLARIFY", ""))
    } else {
        Verdict::Reject(line_with_or(out, "REJECT", "quality failed"))
    }
}

/// The question of the specification stage.
pub open spec fn spec_prompt(task: Seq<char>, produced: Seq<char>) -> Seq<char> {
    "你是规格符合性评审员（第 1/2 阶段）。请求的任务：\n"@ + task + "\n\n产出的工作：\n"@ + produced
        + "\n\n该工作是否实现了所要求的内容？恰好回复一行：'APPROVE' 或 'REJECT: <缺失或错误之处>'。"@
}

/// The question of the quality stage.
pub open spec fn quality_prompt(task: Seq<char>, produced: Seq<char>) -> Seq<char> {
    "你是代码质量评审员（第 2/2 阶段）。请求的任务：\n"@ + task + "\n\n产出的工作：\n"@ + produced
        + "\n\n检查安全性、正确性与可维护性。恰好回复一行：'APPROVE' 或 'REJECT: <问题>' 或 'CLARIFY: <疑问>'。"@
}

pub fn spec_stage_prompt(task: &str, produced: &str) -> (s: String)
    ensures
        s@ == spec_prompt(task@, produced@),
{
    String::from_str("你是规格符合性评审员（第 1/2 阶段）。请求的任务：\n").concat(task).concat(
        "\n\n产出的工作：\n",
    ).concat(produced).concat(
        "\n\n该工作是否实现了所要求的内容？恰好回复一行：'APPROVE' 或 'REJECT: <缺失或错误之处>'。",
    )
}

pub fn quality_stage_prompt(task: &str, produced: &str) -> (s: String)
    ensures
        s@ == quality_prompt(task@, produced@),
{
    String::from_str("你是代码质量评审员（第 2/2 阶段）。请求的任务：\n").concat(task).concat(
        "\n\n产出的工作：\n",
    ).concat(produced).concat(
        "\n\n检查安全性、正确性与可维护性。恰好回复一行：'APPROVE' 或 'REJECT: <问题>' 或 'CLARIFY: <疑问>'。",
    )
}

/// The two-stage review, run by the auditor role of the registry.
pub struct ReviewGate {
    registry: AgentRegistry,
}

impl ReviewGate {
    pub closed spec fn config(&self) -> crate::registry::AgentRegistryConfig {
        self.registry.config()
    }

    pub fn new(registry: AgentRegistry) -> (g: Self)
        ensures
            g.config() == registry.config(),
    {
        ReviewGate { registry }
    }

    /// The auditor agent that answers both stages.
    pub fn auditor_plan(&self) -> (r: Result<BuildPlan, RegistryError>)
        ensures
            plan_outcome(r, self.config(), Role::Auditor),
    {
        self.registry.build_plan(Role::Auditor)
    }
}

/// What follows the auditor's answer to the specification stage.
#[derive(Debug, PartialEq, Eq)]
pub enum ReviewStep {
    /// Ask the quality question.
    AskQuality(String),
    /// The review is over with this verdict.
    Done(Verdict),
}

/// The step after the specification stage: the quality question when the
/// answer approves, else the rejection.
pub fn after_spec_stage(task: &str, produced: &str, spec_out: &str) -> (r: ReviewStep)
    ensures
        contains_sub(uppercase(spec_out@), "APPROVE"@) ==> (r matches ReviewStep::AskQuality(q) && q@
            == quality_prompt(task@, produced@)),
        !contains_sub(uppercase(spec_out@), "APPROVE"@) ==> (r matches ReviewStep::Done(
            Verdict::Reject(fb),
        ) && fb@ == spec_stage_feedback(spec_out@)),
{
    match judge_spec_stage(spec_out) {
        None => ReviewStep::AskQuality(quality_stage_prompt(task, produced)),
        Some(v) => ReviewStep::Done(v),
    }
}

/// `v` is the verdict of a whole review whose specification stage got the
/// answer `spec_out` and whose quality stage (asked only when the first one
/// approves) got `quality_out`.
pub open spec fn review_verdict(v: Verdict, spec_out: Seq<char>, quality_out: Seq<char>) -> bool {
    if contains_sub(uppercase(spec_out), "APPROVE"@) {
        quality_verdict(v, quality_out)
    } else {
        v matches Verdict::Reject(fb) && fb@ == spec_stage_feedback(spec_out)
    }
}

/// A review approves only when both stages do.
pub proof fn lemma_approval_needs_both_stages(v: Verdict, spec_out: Seq<char>, quality_out: Seq<char>)
    requires
        review_verdict(v, spec_out, quality_out),
        v is Approve,
    ensures
        contains_sub(uppercase(spec_out), "APPROVE"@),
        contains_sub(uppercase(quality_out), "APPROVE"@),
{
}

/// A quality answer that approves is an approval, whatever else it says.
pub proof fn lemma_approve_wins(quality_out: Seq<char>, v: Verdict)
    requires
        quality_verdict(v, quality_out),
        contains_sub(uppercase(quality_out), "APPROVE"@),
    ensures
        v is Approve,
{
}

/// The quality stage approves exactly when its answer approves; an answer
/// that does not approve but asks for clarification is a question, whatever
/// else it holds (a `REJECT` inside it included); a rejection comes only
/// when the answer neither approves nor asks.
pub proof fn lemma_quality_verdict_order(v: Verdict, out: Seq<char>)
    requires
        quality_verdict(v, out),
    ensures
        (v is Approve) == contains_sub(uppercase(out), "APPROVE"@),
        (!contains_sub(uppercase(out), "APPROVE"@) && contains_sub(uppercase(out), "CLARIFY"@))
            ==> (v matches Verdict::Clarify(q) && q@ == line_or(out, "CLARIFY"@, ""@)),
        (v is Reject) == (!contains_sub(uppercase(out), "APPROVE"@) && !contains_sub(
            uppercase(out),
            "CLARIFY"@,
        )),
{
}

} // verus!
