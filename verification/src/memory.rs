//! Conversation turns, lessons and the rules observed while working; a rule
//! seen often enough is escalated into the agents' standing instructions.
use vstd::prelude::*;
use crate::text::{chars_of, extend_chars, str_eq, string_from_chars};

verus! {

/// One exchange of the conversation.
#[derive(Clone, Debug)]
pub struct Turn {
    pub role: String,
    pub content: String,
    pub ts: u64,
}

/// A reusable lesson drawn after a task.
#[derive(Clone, Debug)]
pub struct Lesson {
    pub summary: String,
    pub ts: u64,
}

/// A behaviour rule, how often it was observed, and whether it was already
/// written into the standing instructions.
#[derive(Clone, Debug)]
pub struct Rule {
    pub text: String,
    pub count: u32,
    pub written_to: bool,
}

/// A rule as a value: its text, count and escalation flag.
pub struct RuleView {
    pub text: Seq<char>,
    pub count: int,
    pub written_to: bool,
}

impl View for Rule {
    type V = RuleView;

    open spec fn view(&self) -> RuleView {
        RuleView { text: self.text@, count: self.count as int, written_to: self.written_to }
    }
}

/// The values of a list of rules.
pub open spec fn rules_view(rules: Seq<Rule>) -> Seq<RuleView> {
    rules.map_values(|r: Rule| r@)
}

/// Rule `i` is the first one with text `text`.
pub open spec fn first_rule(rules: Seq<RuleView>, text: Seq<char>, i: int) -> bool {
    &&& 0 <= i < rules.len()
    &&& rules[i].text == text
    &&& forall|j: int| 0 <= j < i ==> rules[j].text != text
}

/// The index of the first rule with text `text`, or the number of rules when
/// none has it.
pub open spec fn rule_pos(rules: Seq<RuleView>, text: Seq<char>) -> int {
    if exists|i: int| first_rule(rules, text, i) {
        choose|i: int| first_rule(rules, text, i)
    } else {
        rules.len() as int
    }
}

/// One more observation of the rule `text`: its count goes up by one (a new
/// rule starts at one), and the rule is escalated (the flag that comes back)
/// when its count reaches `threshold` and it was not escalated before.
pub open spec fn observe(rules: Seq<RuleView>, text: Seq<char>, threshold: u32) -> (Seq<RuleView>, bool) {
    let i = rule_pos(rules, text);
    if i < rules.len() {
        let r = rules[i];
        let count = r.count + 1;
        let crossed = count >= threshold && !r.written_to;
        (rules.update(i, RuleView { text: r.text, count, written_to: r.written_to || crossed }), crossed)
    } else {
        let crossed = 1 >= threshold;
        (rules.push(RuleView { text, count: 1, written_to: crossed }), crossed)
    }
}

/// No two rules share a text.
pub open spec fn texts_unique(rules: Seq<RuleView>) -> bool {
    forall|i: int, j: int| 0 <= i < j < rules.len() ==> rules[i].text != rules[j].text
}

/// Observing `text` cannot overflow a count: the first rule with that text,
/// if there is one, counts less than `u32::MAX`.
pub open spec fn can_count(rules: Seq<RuleView>, text: Seq<char>) -> bool {
    rule_pos(rules, text) < rules.len() ==> rules[rule_pos(rules, text)].count < u32::MAX
}

proof fn lemma_rule_pos_first(rules: Seq<RuleView>, text: Seq<char>, i: int)
    requires
        first_rule(rules, text, i),
    ensures
        rule_pos(rules, text) == i,
{
    let k = choose|k: int| first_rule(rules, text, k);
    if k < i {
        assert(rules[k].text != text);
    } else if i < k {
        assert(rules[i].text != text);
    }
}

proof fn lemma_rule_pos_none(rules: Seq<RuleView>, text: Seq<char>)
    requires
        forall|j: int| 0 <= j < rules.len() ==> rules[j].text != text,
    ensures
        rule_pos(rules, text) == rules.len(),
{
}

/// The index of the first rule with text `text`.
pub fn find_rule(rules: &Vec<Rule>, text: &str) -> (r: Option<usize>)
    ensures
        match r {
            Some(i) => first_rule(rules_view(rules@), text@, i as int),
            None => forall|j: int| 0 <= j < rules@.len() ==> rules_view(rules@)[j].text != text@,
        },
{
    let ghost v = rules_view(rules@);
    let mut i: usize = 0;
    while i < rules.len()
        invariant
            v == rules_view(rules@),
            i <= rules@.len(),
            forall|j: int| 0 <= j < i ==> v[j].text != text@,
        decreases rules@.len() - i,
    {
        if str_eq(rules[i].text.as_str(), text) {
            return Some(i);
        }
        i += 1;
    }
    None
}

/// Where the memory files live (the `[memory]` table of the configuration).
#[derive(Clone, Debug)]
pub struct MemoryConfig {
    pub dir: String,
    pub conversation_file: String,
    pub lessons_file: String,
    pub rules_file: String,
}

/// `file` placed under `dir` as `Path::join` does on Unix: an absolute
/// `file` stands alone, otherwise a `/` goes between the two unless `dir`
/// is empty or already ends in one.
pub open spec fn join_path(dir: Seq<char>, file: Seq<char>) -> Seq<char> {
    if file.len() > 0 && file[0] == '/' {
        file
    } else if dir.len() == 0 || dir.last() == '/' {
        dir + file
    } else {
        dir + seq!['/'] + file
    }
}

pub fn join(dir: &str, file: &str) -> (r: String)
    ensures
        r@ == join_path(dir@, file@),
{
    let d = chars_of(dir);
    let f = chars_of(file);
    if f.len() > 0 && f[0] == '/' {
        return string_from_chars(f.as_slice());
    }
    let mut v = d;
    if v.len() > 0 && v[v.len() - 1] != '/' {
        v.push('/');
    }
    extend_chars(&mut v, f.as_slice());
    string_from_chars(v.as_slice())
}

/// The files of the memory store.
#[derive(Clone, Debug)]
pub struct MemoryStore {
    dir: String,
    conversation_file: String,
    lessons_file: String,
    rules_file: String,
}

/// The section appended to the standing instructions for an escalated rule.
pub open spec fn escalated_section(rule: Seq<char>) -> Seq<char> {
    "\n## Escalated rule\n- "@ + rule + "\n"@
}

impl MemoryStore {
    pub closed spec fn dir_path(&self) -> Seq<char> {
        self.dir@
    }

    pub closed spec fn conversation_path(&self) -> Seq<char> {
        self.conversation_file@
    }

    pub closed spec fn lessons_path(&self) -> Seq<char> {
        self.lessons_file@
    }

    pub closed spec fn rules_path(&self) -> Seq<char> {
        self.rules_file@
    }

    /// The store of a configuration: each file under the configured directory.
    pub fn new(cfg: &MemoryConfig) -> (m: Self)
        ensures
            m.dir_path() == cfg.dir@,
            m.conversation_path() == join_path(cfg.dir@, cfg.conversation_file@),
            m.lessons_path() == join_path(cfg.dir@, cfg.lessons_file@),
            m.rules_path() == join_path(cfg.dir@, cfg.rules_file@),
    {
        MemoryStore {
            dir: cfg.dir.clone(),
            conversation_file: join(cfg.dir.as_str(), cfg.conversation_file.as_str()),
            lessons_file: join(cfg.dir.as_str(), cfg.lessons_file.as_str()),
            rules_file: join(cfg.dir.as_str(), cfg.rules_file.as_str()),
        }
    }

    pub fn dir(&self) -> (p: &str)
        ensures
            p@ == self.dir_path(),
    {
        self.dir.as_str()
    }

    pub fn conversation_file(&self) -> (p: &str)
        ensures
            p@ == self.conversation_path(),
    {
        self.conversation_file.as_str()
    }

    pub fn lessons_file(&self) -> (p: &str)
        ensures
            p@ == self.lessons_path(),
    {
        self.lessons_file.as_str()
    }

    pub fn rules_file(&self) -> (p: &str)
        ensures
            p@ == self.rules_path(),
    {
        self.rules_file.as_str()
    }

    /// Records one observation of the rule `text` in `rules`. The answer is
    /// `true` when the rule has just crossed the escalation threshold and is
    /// to be written into the standing instructions.
    pub fn observe_rule(rules: &mut Vec<Rule>, text: &str, threshold: u32) -> (crossed: bool)
        requires
            can_count(rules_view(old(rules)@), text@),
        ensures
            (rules_view(final(rules)@), crossed) == observe(rules_view(old(rules)@), text@, threshold),
    {
        let ghost before = rules_view(rules@);
        match find_rule(rules, text) {
            Some(i) => {
                proof {
                    lemma_rule_pos_first(before, text@, i as int);
                }
                let count = rules[i].count + 1;
                let crossed = count >= threshold && !rules[i].written_to;
                let written_to = rules[i].written_to || crossed;
                let updated = Rule { text: rules[i].text.clone(), count, written_to };
                rules.set(i, updated);
                assert(rules_view(rules@) =~= observe(before, text@, threshold).0);
                crossed
            },
            None => {
                proof {
                    lemma_rule_pos_none(before, text@);
                }
                let crossed = 1 >= threshold;
                rules.push(Rule { text: String::from_str(text), count: 1, written_to: crossed });
                assert(rules_view(rules@) =~= observe(before, text@, threshold).0);
                crossed
            },
        }
    }
    /// The section that escalating `rule` appends to the standing
    /// instructions.
    pub fn escalated_rule_section(rule: &str) -> (s: String)
        ensures
            s@ == escalated_section(rule@),
    {
        String::from_str("\n## Escalated rule\n- ").concat(rule).concat("\n")
    }
}

/// The rules after `n` observations of `text`.
pub open spec fn observe_times(rules: Seq<RuleView>, text: Seq<char>, threshold: u32, n: nat) -> Seq<RuleView>
    decreases n,
{
    if n == 0 {
        rules
    } else {
        observe(observe_times(rules, text, threshold, (n - 1) as nat), text, threshold).0
    }
}

/// Facts about the rules after one observation of `text`: the rule for it is
/// where it was (at the end when it is new), keeps its text, counts once more,
/// is marked escalated exactly when it was before or the observation
/// escalates it, and an escalation only happens to a rule not escalated
/// before. Every other rule is untouched.
pub proof fn lemma_observe_effect(rules: Seq<RuleView>, text: Seq<char>, threshold: u32)
    ensures
        ({
            let (after, crossed) = observe(rules, text, threshold);
            let i = rule_pos(rules, text);
            let had = i < rules.len();
            &&& rule_pos(after, text) == i
            &&& i < after.len()
            &&& after[i].text == text
            &&& after.len() == if had { rules.len() } else { rules.len() + 1 }
            &&& after[i].count == if had { rules[i].count + 1 } else { 1 }
            &&& after[i].written_to == ((had && rules[i].written_to) || crossed)
            &&& (crossed ==> !(had && rules[i].written_to))
            &&& crossed == (after[i].count >= threshold && !(had && rules[i].written_to))
            &&& forall|j: int| 0 <= j < rules.len() && j != i ==> after[j] == rules[j]
        }),
{
    let i = rule_pos(rules, text);
    let after = observe(rules, text, threshold).0;
    if exists|k: int| first_rule(rules, text, k) {
        let k = choose|k: int| first_rule(rules, text, k);
        assert(i == k);
        assert(first_rule(after, text, i));
        lemma_rule_pos_first(after, text, i);
    } else {
        assert forall|j: int| 0 <= j < rules.len() implies rules[j].text != text by {
            if rules[j].text == text {
                lemma_some_first_rule(rules, text, j);
            }
        }
        assert(first_rule(after, text, rules.len() as int));
        lemma_rule_pos_first(after, text, rules.len() as int);
    }
}

/// When some rule has text `text`, a first one has.
proof fn lemma_some_first_rule(rules: Seq<RuleView>, text: Seq<char>, j: int)
    requires
        0 <= j < rules.len(),
        rules[j].text == text,
    ensures
        exists|k: int| first_rule(rules, text, k),
    decreases j,
{
    if exists|m: int| 0 <= m < j && rules[m].text == text {
        let m = choose|m: int| 0 <= m < j && rules[m].text == text;
        lemma_some_first_rule(rules, text, m);
    } else {
        assert(first_rule(rules, text, j));
    }
}

/// A rule is escalated at most once: after an observation that escalates it,
/// no later observation of it escalates it again, whatever the threshold.
pub proof fn lemma_escalates_at_most_once(rules: Seq<RuleView>, text: Seq<char>, threshold: u32, later: u32)
    ensures
        observe(rules, text, threshold).1 ==> !observe(observe(rules, text, threshold).0, text, later).1,
{
    let after = observe(rules, text, threshold).0;
    lemma_observe_effect(rules, text, threshold);
    lemma_observe_effect(after, text, later);
}

/// An escalated rule stays escalated, and observing it again answers
/// `false`.
pub proof fn lemma_escalated_rule_stays_escalated(rules: Seq<RuleView>, text: Seq<char>, threshold: u32)
    requires
        rule_pos(rules, text) < rules.len(),
        rules[rule_pos(rules, text)].written_to,
    ensures
        !observe(rules, text, threshold).1,
        observe(rules, text, threshold).0[rule_pos(rules, text)].written_to,
{
    lemma_observe_effect(rules, text, threshold);
}

/// Observing a rule keeps the texts of the rules distinct.
pub proof fn lemma_observe_keeps_texts_unique(rules: Seq<RuleView>, text: Seq<char>, threshold: u32)
    requires
        texts_unique(rules),
    ensures
        texts_unique(observe(rules, text, threshold).0),
{
    let after = observe(rules, text, threshold).0;
    let i = rule_pos(rules, text);
    lemma_observe_effect(rules, text, threshold);
    if i == rules.len() {
        assert forall|j: int| 0 <= j < rules.len() implies rules[j].text != text by {
            if rules[j].text == text {
                lemma_some_first_rule(rules, text, j);
                let k = choose|k: int| first_rule(rules, text, k);
                lemma_rule_pos_first(rules, text, k);
            }
        }
    }
    assert forall|a: int, b: int| 0 <= a < b < after.len() implies after[a].text != after[b].text by {
        if a != i && b != i {
            assert(after[a] == rules[a]);
            assert(after[b] == rules[b]);
        } else if a == i {
            assert(after[b] == rules[b]);
            if i < rules.len() {
                assert(first_rule(rules, text, i)) by {
                    let k = choose|k: int| first_rule(rules, text, k);
                    lemma_rule_pos_first(rules, text, k);
                }
            }
        } else {
            assert(after[a] == rules[a]);
            if i < rules.len() {
                assert(first_rule(rules, text, i)) by {
                    lemma_some_first_rule(rules, text, i);
                    let k = choose|k: int| first_rule(rules, text, k);
                    lemma_rule_pos_first(rules, text, k);
                }
            }
        }
    }
}

/// Starting from rules without `text`, after `n >= 1` observations the rule
/// stands at the end with count `n`, escalated exactly when `n` reached the
/// threshold.
pub proof fn lemma_observe_times(rules: Seq<RuleView>, text: Seq<char>, threshold: u32, n: nat)
    requires
        forall|j: int| 0 <= j < rules.len() ==> rules[j].text != text,
        n >= 1,
    ensures
        ({
            let after = observe_times(rules, text, threshold, n);
            &&& after.len() == rules.len() + 1
            &&& rule_pos(after, text) == rules.len()
            &&& after[rules.len() as int].count == n
            &&& after[rules.len() as int].written_to == (n >= threshold)
        }),
    decreases n,
{
    let prev = observe_times(rules, text, threshold, (n - 1) as nat);
    if n == 1 {
        lemma_rule_pos_none(rules, text);
        lemma_observe_effect(rules, text, threshold);
    } else {
        lemma_observe_times(rules, text, threshold, (n - 1) as nat);
        lemma_observe_effect(prev, text, threshold);
    }
}

/// A rule first seen now and then observed again and again is escalated on
/// exactly one observation: the one that brings its count to the threshold
/// (the first one when the threshold is at most one).
pub proof fn lemma_escalated_on_threshold_sighting(rules: Seq<RuleView>, text: Seq<char>, threshold: u32, n: nat)
    requires
        forall|j: int| 0 <= j < rules.len() ==> rules[j].text != text,
        n >= 1,
    ensures
        observe(observe_times(rules, text, threshold, (n - 1) as nat), text, threshold).1 == (n
            == threshold || (n == 1 && threshold == 0)),
{
    let prev = observe_times(rules, text, threshold, (n - 1) as nat);
    lemma_observe_effect(prev, text, threshold);
    if n == 1 {
        lemma_rule_pos_none(rules, text);
    } else {
        lemma_observe_times(rules, text, threshold, (n - 1) as nat);
    }
}

/// The rule for `text` is there and escalated.
pub open spec fn is_escalated(rules: Seq<RuleView>, text: Seq<char>) -> bool {
    rule_pos(rules, text) < rules.len() && rules[rule_pos(rules, text)].written_to
}

/// The rules after a sequence of observations, each of a text with its
/// threshold.
pub open spec fn run_observations(rules: Seq<RuleView>, steps: Seq<(Seq<char>, u32)>) -> Seq<RuleView>
    decreases steps.len(),
{
    if steps.len() == 0 {
        rules
    } else {
        let last = steps.last();
        observe(run_observations(rules, steps.drop_last()), last.0, last.1).0
    }
}

/// What observation `k` of the sequence answers.
pub open spec fn answer_at(rules: Seq<RuleView>, steps: Seq<(Seq<char>, u32)>, k: int) -> bool {
    observe(run_observations(rules, steps.take(k)), steps[k].0, steps[k].1).1
}

/// Observing any rule leaves an escalated rule escalated.
pub proof fn lemma_escalation_persists(rules: Seq<RuleView>, text: Seq<char>, other: Seq<char>, threshold: u32)
    requires
        is_escalated(rules, text),
    ensures
        is_escalated(observe(rules, other, threshold).0, text),
{
    let i = rule_pos(rules, text);
    let after = observe(rules, other, threshold).0;
    lemma_observe_effect(rules, other, threshold);
    assert(exists|k: int| first_rule(rules, text, k));
    let k = choose|k: int| first_rule(rules, text, k);
    lemma_rule_pos_first(rules, text, k);
    if other == text {
        lemma_escalated_rule_stays_escalated(rules, text, threshold);
    } else {
        let p = rule_pos(rules, other);
        assert(i != p);
        assert(after[i] == rules[i]);
        assert forall|j: int| 0 <= j < i implies after[j].text != text by {
            if j != p {
                assert(after[j] == rules[j]);
            }
        }
        assert(first_rule(after, text, i));
        lemma_rule_pos_first(after, text, i);
    }
}

/// An escalated rule stays escalated through every later observation.
pub proof fn lemma_escalation_persists_through(rules: Seq<RuleView>, steps: Seq<(Seq<char>, u32)>, text: Seq<char>, a: int, b: int)
    requires
        0 <= a <= b <= steps.len(),
        is_escalated(run_observations(rules, steps.take(a)), text),
    ensures
        is_escalated(run_observations(rules, steps.take(b)), text),
    decreases b - a,
{
    if a < b {
        lemma_escalation_persists_through(rules, steps, text, a, b - 1);
        assert(steps.take(b).drop_last() =~= steps.take(b - 1));
        lemma_escalation_persists(
            run_observations(rules, steps.take(b - 1)),
            text,
            steps[b - 1].0,
            steps[b - 1].1,
        );
    }
}

/// Over any sequence of observations, with any thresholds and other rules
/// observed in between, a rule is escalated by at most one of them; after
/// that it stays escalated and every later observation of it answers
/// `false`.
pub proof fn lemma_escalates_at_most_once_in_sequence(rules: Seq<RuleView>, steps: Seq<(Seq<char>, u32)>, text: Seq<char>, i: int, j: int)
    requires
        0 <= i < j < steps.len(),
        steps[i].0 == text,
        steps[j].0 == text,
        answer_at(rules, steps, i),
    ensures
        !answer_at(rules, steps, j),
        is_escalated(run_observations(rules, steps.take(j)), text),
{
    let before = run_observations(rules, steps.take(i));
    lemma_observe_effect(before, text, steps[i].1);
    assert(steps.take(i + 1).drop_last() =~= steps.take(i));
    assert(is_escalated(run_observations(rules, steps.take(i + 1)), text));
    lemma_escalation_persists_through(rules, steps, text, i + 1, j);
    lemma_escalated_rule_stays_escalated(run_observations(rules, steps.take(j)), text, steps[j].1);
}

} // verus!
