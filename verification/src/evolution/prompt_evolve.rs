//! Prompt evolution: a proposed preamble replaces the current one only when
//! it scores at least as well on a fixed benchmark, which keeps prompts from
//! drifting for the worse.
use vstd::prelude::*;
use crate::registry::{plan_outcome, AgentRegistry, AgentRegistryConfig, BuildPlan, RegistryError, Role};
use crate::text::{contains_sub, decimal, decimal_chars, str_contains, string_from_chars};
use crate::unicode::{to_uppercase, uppercase};

verus! {

/// The benchmark tasks, each judged pass or fail by the auditor.
pub open spec fn benchmark() -> Seq<Seq<char>> {
    seq![
        "Write a Rust function that returns the nth Fibonacci number."@,
        "Explain what a closure is in one sentence."@,
        "List three ways to handle errors in Rust."@,
    ]
}

pub fn benchmark_tasks() -> (v: Vec<String>)
    ensures
        v@.map_values(|s: String| s@) == benchmark(),
{
    let mut v: Vec<String> = Vec::new();
    v.push(String::from_str("Write a Rust function that returns the nth Fibonacci number."));
    v.push(String::from_str("Explain what a closure is in one sentence."));
    v.push(String::from_str("List three ways to handle errors in Rust."));
    assert(v@.map_values(|s: String| s@) =~= benchmark());
    v
}

/// The question that asks the auditor to judge one answer.
pub open spec fn verdict_question(task: Seq<char>, answer: Seq<char>) -> Seq<char> {
    "下面的回答是否正确地、有效地解决了该任务？\nTask: "@ + task + "\nAnswer: "@ + answer
        + "\n恰好回复一行：PASS 或 FAIL。"@
}

pub fn verdict_prompt(task: &str, answer: &str) -> (s: String)
    ensures
        s@ == verdict_question(task@, answer@),
{
    String::from_str("下面的回答是否正确地、有效地解决了该任务？\nTask: ").concat(task).concat(
        "\nAnswer: ",
    ).concat(answer).concat("\n恰好回复一行：PASS 或 FAIL。")
}

/// The auditor's judgement passes the answer.
pub open spec fn passes(judgement: Seq<char>) -> bool {
    contains_sub(uppercase(judgement), "PASS"@)
}

pub fn judgement_passes(judgement: &str) -> (r: bool)
    ensures
        r == passes(judgement@),
{
    let up = to_uppercase(judgement);
    str_contains(up.as_str(), "PASS")
}

/// How many of the judgements pass.
pub open spec fn pass_count(judgements: Seq<Seq<char>>) -> nat
    decreases judgements.len(),
{
    if judgements.len() == 0 {
        0
    } else {
        pass_count(judgements.drop_last()) + if passes(judgements.last()) { 1nat } else { 0nat }
    }
}

/// The score of a preamble: the number of benchmark judgements that pass.
pub fn score(judgements: &Vec<String>) -> (n: usize)
    ensures
        n == pass_count(judgements@.map_values(|s: String| s@)),
{
    let ghost jv = judgements@.map_values(|s: String| s@);
    let mut n: usize = 0;
    let mut i: usize = 0;
    assert(jv.take(0) =~= Seq::<Seq<char>>::empty());
    while i < judgements.len()
        invariant
            jv == judgements@.map_values(|s: String| s@),
            i <= judgements@.len(),
            n == pass_count(jv.take(i as int)),
            n <= i,
        decreases judgements@.len() - i,
    {
        assert(jv.take(i + 1).drop_last() =~= jv.take(i as int));
        if judgement_passes(judgements[i].as_str()) {
            n += 1;
        }
        i += 1;
    }
    assert(jv.take(i as int) =~= jv);
    n
}

/// The request to the meta agent for a better preamble.
pub open spec fn proposal_question(current: Seq<char>) -> Seq<char> {
    "你是一个元 agent，负责改进某个 AI agent 的系统提示词。下面是当前的提示词。请提出一个改进版本，让该 agent 更有帮助、更准确、更安全。只输出新的提示词文本，不要附加任何评论。\n\n当前提示词：\n"@
        + current
}

pub fn proposal_prompt(current: &str) -> (s: String)
    ensures
        s@ == proposal_question(current@),
{
    String::from_str(
        "你是一个元 agent，负责改进某个 AI agent 的系统提示词。下面是当前的提示词。请提出一个改进版本，让该 agent 更有帮助、更准确、更安全。只输出新的提示词文本，不要附加任何评论。\n\n当前提示词：\n",
    ).concat(current)
}

/// What evolution decides: whether the proposal replaces the current
/// preamble, and the message that reports it.
#[derive(Debug)]
pub struct EvolveOutcome {
    pub promote: bool,
    pub message: String,
}

pub open spec fn promoted_message(new_score: nat, old_score: nat) -> Seq<char> {
    "promoted new prompt (score "@ + decimal(new_score) + " >= "@ + decimal(old_score)
        + "); old tagged in git"@
}

pub open spec fn kept_message(new_score: nat, old_score: nat) -> Seq<char> {
    "kept old prompt (new score "@ + decimal(new_score) + " < "@ + decimal(old_score)
        + "); no change"@
}

/// The decision on a proposal: it is promoted exactly when it scores no
/// lower than the current preamble.
pub fn decide_evolution(old_score: usize, new_score: usize) -> (o: EvolveOutcome)
    ensures
        o.promote == (new_score >= old_score),
        o.promote ==> o.message@ == promoted_message(new_score as nat, old_score as nat),
        !o.promote ==> o.message@ == kept_message(new_score as nat, old_score as nat),
{
    let n = decimal_chars(new_score as u64);
    let o = decimal_chars(old_score as u64);
    let ns = string_from_chars(n.as_slice());
    let os = string_from_chars(o.as_slice());
    if new_score >= old_score {
        let message = String::from_str("promoted new prompt (score ").concat(ns.as_str()).concat(
            " >= ",
        ).concat(os.as_str()).concat("); old tagged in git");
        EvolveOutcome { promote: true, message }
    } else {
        let message = String::from_str("kept old prompt (new score ").concat(ns.as_str()).concat(
            " < ",
        ).concat(os.as_str()).concat("); no change");
        EvolveOutcome { promote: false, message }
    }
}

/// The git tag that checkpoints the preamble replaced at time `ts`.
pub open spec fn tag_name(ts: u64) -> Seq<char> {
    "prompt-v"@ + decimal(ts as nat)
}

pub fn prompt_tag(ts: u64) -> (s: String)
    ensures
        s@ == tag_name(ts),
{
    let d = decimal_chars(ts);
    let ds = string_from_chars(d.as_slice());
    String::from_str("prompt-v").concat(ds.as_str())
}

/// Evolves the preamble file `agents_md_path` with the agents of a registry.
pub struct PromptEvolver {
    registry: AgentRegistry,
    agents_md_path: String,
}

impl PromptEvolver {
    pub closed spec fn config(&self) -> AgentRegistryConfig {
        self.registry.config()
    }

    pub closed spec fn path(&self) -> Seq<char> {
        self.agents_md_path@
    }

    pub fn new(registry: AgentRegistry, agents_md_path: String) -> (e: Self)
        ensures
            e.config() == registry.config(),
            e.path() == agents_md_path@,
    {
        PromptEvolver { registry, agents_md_path }
    }

    /// The preamble file that evolution rewrites.
    pub fn agents_md_path(&self) -> (p: &str)
        ensures
            p@ == self.path(),
    {
        self.agents_md_path.as_str()
    }

    /// The auditor that judges benchmark answers.
    pub fn judge_plan(&self) -> (r: Result<BuildPlan, RegistryError>)
        ensures
            plan_outcome(r, self.config(), Role::Auditor),
    {
        self.registry.build_plan(Role::Auditor)
    }

    /// The meta agent that proposes a new preamble.
    pub fn meta_plan(&self) -> (r: Result<BuildPlan, RegistryError>)
        ensures
            plan_outcome(r, self.config(), Role::Orchestrator),
    {
        self.registry.build_plan(Role::Orchestrator)
    }
}

/// A score never exceeds the number of judgements.
pub proof fn lemma_score_bounded(judgements: Seq<Seq<char>>)
    ensures
        pass_count(judgements) <= judgements.len(),
    decreases judgements.len(),
{
    if judgements.len() > 0 {
        lemma_score_bounded(judgements.drop_last());
    }
}

} // verus!
