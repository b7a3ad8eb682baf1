//! Skills: markdown instruction packs registered in a manifest. The skills
//! relevant to a task have their bodies injected into the prompt.
use vstd::prelude::*;
use crate::text::{
    chars_of, contains_sub, extend_chars, split_chars, split_class, str_contains, str_eq,
    string_from_chars, trim, trim_chars, trim_class, views, CharClass,
};
use crate::unicode::{ascii_lower, ascii_upper, lemma_ascii_case_folds, lowercase, to_lowercase};
use vstd::utf8::is_ascii_chars;

verus! {

/// One registered skill: its name, the file of its body, its description and
/// the keywords that make it relevant (words of the description stand in
/// when there are none).
#[derive(Clone, Debug)]
pub struct SkillEntry {
    pub name: String,
    pub file: String,
    pub description: String,
    pub keywords: Vec<String>,
}

/// The manifest of registered skills.
#[derive(Debug)]
pub struct SkillManifest {
    pub skills: Vec<SkillEntry>,
}

impl Default for SkillManifest {
    fn default() -> (m: Self)
        ensures
            m.skills@.len() == 0,
    {
        SkillManifest { skills: Vec::new() }
    }
}

/// Why a skill cannot be added.
#[derive(Debug, PartialEq, Eq)]
pub enum SkillError {
    /// A skill of this name is registered already.
    AlreadyRegistered(String),
}

pub open spec fn skill_error_message(e: SkillError) -> Seq<char> {
    match e {
        SkillError::AlreadyRegistered(name) => "skill "@ + name@ + " already registered"@,
    }
}

impl SkillError {
    pub fn message(&self) -> (s: String)
        ensures
            s@ == skill_error_message(*self),
    {
        match self {
            SkillError::AlreadyRegistered(name) => String::from_str("skill ").concat(
                name.as_str(),
            ).concat(" already registered"),
        }
    }
}

/// The names of the registered skills, in order.
pub open spec fn skill_names(skills: Seq<SkillEntry>) -> Seq<Seq<char>> {
    skills.map_values(|e: SkillEntry| e.name@)
}

/// A skill named `name` is registered.
pub open spec fn has_skill(skills: Seq<SkillEntry>, name: Seq<char>) -> bool {
    exists|i: int| 0 <= i < skills.len() && skills[i].name@ == name
}

impl SkillManifest {
    /// Registers a skill unless one of the same name is there already.
    pub fn register(&mut self, entry: SkillEntry) -> (r: Result<(), SkillError>)
        ensures
            has_skill(old(self).skills@, entry.name@) ==> (r matches Err(
                SkillError::AlreadyRegistered(n),
            ) && n@ == entry.name@ && final(self).skills@ == old(self).skills@),
            !has_skill(old(self).skills@, entry.name@) ==> r is Ok && final(self).skills@
                == old(self).skills@.push(entry),
    {
        let mut i: usize = 0;
        while i < self.skills.len()
            invariant
                i <= self.skills@.len(),
                forall|j: int| 0 <= j < i ==> self.skills@[j].name@ != entry.name@,
            decreases self.skills@.len() - i,
        {
            if str_eq(self.skills[i].name.as_str(), entry.name.as_str()) {
                return Err(SkillError::AlreadyRegistered(entry.name.clone()));
            }
            i += 1;
        }
        self.skills.push(entry);
        Ok(())
    }

    /// The names of all registered skills.
    pub fn list(&self) -> (names: Vec<String>)
        ensures
            names@.map_values(|s: String| s@) == skill_names(self.skills@),
    {
        let mut names: Vec<String> = Vec::new();
        let mut i: usize = 0;
        while i < self.skills.len()
            invariant
                i <= self.skills@.len(),
                names@.map_values(|s: String| s@) == skill_names(self.skills@).take(i as int),
            decreases self.skills@.len() - i,
        {
            let n = self.skills[i].name.clone();
            let ghost prev = names@;
            names.push(n);
            assert(names@ == prev.push(n));
            assert(names@.map_values(|s: String| s@) =~= prev.map_values(|s: String| s@).push(n@));
            i += 1;
            assert(names@.map_values(|s: String| s@) =~= skill_names(self.skills@).take(i as int));
        }
        assert(skill_names(self.skills@).take(i as int) =~= skill_names(self.skills@));
        names
    }
}

/// The path of a skill's body, in the `skills` directory: its name in lower
/// case with spaces and hyphens turned into underscores, then `.md`.
pub open spec fn skill_path(name: Seq<char>) -> Seq<char> {
    lowered_skill_path(lowercase(name))
}

/// The path of the body of a skill whose name is already lower-cased.
pub open spec fn lowered_skill_path(low: Seq<char>) -> Seq<char> {
    "skills/"@ + low.map_values(|c: char| if c == ' ' || c == '-' { '_' } else { c }) + ".md"@
}

pub fn skill_file_path(name: &str) -> (p: String)
    ensures
        p@ == skill_path(name@),
{
    let low = to_lowercase(name);
    skill_path_of_lowered(low.as_str())
}

/// The path of the body of a skill whose name is already lower-cased.
pub fn skill_path_of_lowered(low: &str) -> (p: String)
    ensures
        p@ == lowered_skill_path(low@),
{
    let cs = chars_of(low);
    let mut v = chars_of("skills/");
    let ghost start = v@;
    let mut i: usize = 0;
    while i < cs.len()
        invariant
            i <= cs@.len(),
            v@ == start + cs@.take(i as int).map_values(
                |c: char| if c == ' ' || c == '-' { '_' } else { c },
            ),
        decreases cs@.len() - i,
    {
        let c = cs[i];
        let d = if c == ' ' || c == '-' { '_' } else { c };
        v.push(d);
        i += 1;
        assert(v@ =~= start + cs@.take(i as int).map_values(
            |c: char| if c == ' ' || c == '-' { '_' } else { c },
        ));
    }
    assert(cs@.take(i as int) =~= cs@);
    let md = chars_of(".md");
    extend_chars(&mut v, md.as_slice());
    assert(v@ =~= lowered_skill_path(low@));
    string_from_chars(v.as_slice())
}

/// A description as it is registered: trimmed, then without the double
/// quotes at its ends.
pub open spec fn clean_description(d: Seq<char>) -> Seq<char> {
    trim_class(trim(d), CharClass::Exactly('"'))
}

/// The message of a skill added.
pub open spec fn added_message(name: Seq<char>) -> Seq<char> {
    "scaffolded skill '"@ + name + "' at "@ + skill_path(name) + "; registered in manifest"@
}

/// Registers the skill `name` with its cleaned description, its body in the
/// `skills` directory and no keywords; on success, the message to show.
pub fn add_skill(manifest: &mut SkillManifest, name: &str, description: &str) -> (r: Result<String, SkillError>)
    ensures
        has_skill(old(manifest).skills@, name@) ==> (r matches Err(
            SkillError::AlreadyRegistered(n),
        ) && n@ == name@ && final(manifest).skills@ == old(manifest).skills@),
        !has_skill(old(manifest).skills@, name@) ==> {
            &&& r matches Ok(msg) && msg@ == added_message(name@)
            &&& final(manifest).skills@.len() == old(manifest).skills@.len() + 1
            &&& final(manifest).skills@.take(old(manifest).skills@.len() as int) == old(manifest).skills@
            &&& final(manifest).skills@.last().name@ == name@
            &&& final(manifest).skills@.last().file@ == skill_path(name@)
            &&& final(manifest).skills@.last().description@ == clean_description(description@)
            &&& final(manifest).skills@.last().keywords@.len() == 0
        },
{
    let path = skill_file_path(name);
    let dc = chars_of(description);
    let t = trim_chars(dc.as_slice(), CharClass::Whitespace);
    let clean = trim_chars(t.as_slice(), CharClass::Exactly('"'));
    let entry = SkillEntry {
        name: String::from_str(name),
        file: path.clone(),
        description: string_from_chars(clean.as_slice()),
        keywords: Vec::new(),
    };
    match manifest.register(entry) {
        Ok(()) => {
            let msg = String::from_str("scaffolded skill '").concat(name).concat("' at ").concat(
                path.as_str(),
            ).concat("; registered in manifest");
            assert(manifest.skills@.take(old(manifest).skills@.len() as int) =~= old(manifest).skills@);
            Ok(msg)
        },
        Err(e) => Err(e),
    }
}

/// The number of bytes of the UTF-8 encoding of one character.
pub open spec fn utf8_width(c: char) -> int {
    let u = c as u32;
    if u < 0x80 {
        1
    } else if u < 0x800 {
        2
    } else if u < 0x10000 {
        3
    } else {
        4
    }
}

/// The number of bytes of the UTF-8 encoding of `s` (what `str::len` counts).
pub open spec fn utf8_len(s: Seq<char>) -> int
    decreases s.len(),
{
    if s.len() == 0 {
        0
    } else {
        utf8_len(s.drop_last()) + utf8_width(s.last())
    }
}

proof fn lemma_utf8_len_grows(s: Seq<char>, i: int, j: int)
    requires
        0 <= i <= j <= s.len(),
    ensures
        utf8_len(s.take(i)) <= utf8_len(s.take(j)),
    decreases j - i,
{
    if i < j {
        lemma_utf8_len_grows(s, i, j - 1);
        assert(s.take(j).drop_last() =~= s.take(j - 1));
    }
}

/// The UTF-8 encoding of `s` takes four bytes or more.
fn at_least_four_bytes(s: &[char]) -> (r: bool)
    ensures
        r == (utf8_len(s@) >= 4),
{
    let mut acc: u32 = 0;
    let mut i: usize = 0;
    assert(s@.take(0) =~= Seq::<char>::empty());
    while i < s.len()
        invariant
            i <= s@.len(),
            acc as int == utf8_len(s@.take(i as int)),
            acc < 4,
        decreases s@.len() - i,
    {
        let u = s[i] as u32;
        let w: u32 = if u < 0x80 {
            1
        } else if u < 0x800 {
            2
        } else if u < 0x10000 {
            3
        } else {
            4
        };
        assert(s@.take(i + 1).drop_last() =~= s@.take(i as int));
        acc = acc + w;
        i += 1;
        if acc >= 4 {
            proof {
                lemma_utf8_len_grows(s@, i as int, s@.len() as int);
                assert(s@.take(s@.len() as int) =~= s@);
            }
            return true;
        }
    }
    assert(s@.take(i as int) =~= s@);
    false
}

/// One of the keywords, in lower case, occurs in the lower-cased task.
pub open spec fn keyword_hit(task_low: Seq<char>, keywords: Seq<String>) -> bool {
    exists|i: int| 0 <= i < keywords.len() && contains_sub(task_low, lowercase(keywords[i]@))
}

/// A word of a description as it is matched: without the characters at its
/// ends that are neither letters nor digits.
pub open spec fn description_word(piece: Seq<char>) -> Seq<char> {
    trim_class(piece, CharClass::NotAlphanumeric)
}

/// A word of the lower-cased description, of four bytes or more, occurs in
/// the lower-cased task.
pub open spec fn description_hit(task_low: Seq<char>, description: Seq<char>) -> bool {
    lowered_description_hit(task_low, lowercase(description))
}

/// A word of four bytes or more of the description, already lower-cased,
/// occurs in the lower-cased task.
pub open spec fn lowered_description_hit(task_low: Seq<char>, desc_low: Seq<char>) -> bool {
    let pieces = split_class(desc_low, CharClass::Whitespace);
    exists|i: int|
        0 <= i < pieces.len() && utf8_len(description_word(pieces[i])) >= 4 && contains_sub(
            task_low,
            description_word(pieces[i]),
        )
}

/// A skill is relevant to a (lower-cased) task when one of its keywords or
/// one of the longer words of its description occurs in it.
pub open spec fn skill_relevant(entry: SkillEntry, task_low: Seq<char>) -> bool {
    keyword_hit(task_low, entry.keywords@) || description_hit(task_low, entry.description@)
}

fn keywords_hit(task_low: &str, keywords: &Vec<String>) -> (r: bool)
    ensures
        r == keyword_hit(task_low@, keywords@),
{
    let mut i: usize = 0;
    while i < keywords.len()
        invariant
            i <= keywords@.len(),
            forall|j: int| 0 <= j < i ==> !contains_sub(task_low@, lowercase(keywords@[j]@)),
        decreases keywords@.len() - i,
    {
        let k = to_lowercase(keywords[i].as_str());
        if str_contains(task_low, k.as_str()) {
            return true;
        }
        i += 1;
    }
    false
}

fn description_hits(task_low: &str, description: &str) -> (r: bool)
    ensures
        r == description_hit(task_low@, description@),
        r == lowered_description_hit(task_low@, lowercase(description@)),
        is_ascii_chars(description@) ==> r == lowered_description_hit(task_low@, ascii_lower(description@)),
{
    let low = to_lowercase(description);
    description_hits_lowered(task_low, low.as_str())
}

/// Whether a word of the lower-cased description matches the lower-cased
/// task.
pub fn description_hits_lowered(task_low: &str, desc_low: &str) -> (r: bool)
    ensures
        r == lowered_description_hit(task_low@, desc_low@),
{
    let cs = chars_of(desc_low);
    let pieces = split_chars(cs.as_slice(), CharClass::Whitespace);
    let ghost pv = views(pieces@);
    let mut i: usize = 0;
    while i < pieces.len()
        invariant
            pv == views(pieces@),
            pv == split_class(desc_low@, CharClass::Whitespace),
            i <= pieces@.len(),
            forall|j: int|
                0 <= j < i ==> !(utf8_len(description_word(#[trigger] pv[j])) >= 4 && contains_sub(
                    task_low@,
                    description_word(pv[j]),
                )),
        decreases pieces@.len() - i,
    {
        let w = trim_chars(pieces[i].as_slice(), CharClass::NotAlphanumeric);
        assert(pv[i as int] == pieces@[i as int]@);
        if at_least_four_bytes(w.as_slice()) {
            let ws = string_from_chars(w.as_slice());
            if str_contains(task_low, ws.as_str()) {
                return true;
            }
        }
        i += 1;
    }
    false
}

/// Whether a skill is relevant to a task that is already in lower case.
pub fn is_relevant(entry: &SkillEntry, task_low: &str) -> (r: bool)
    ensures
        r == skill_relevant(*entry, task_low@),
        r == ((exists|i: int|
            0 <= i < entry.keywords@.len() && contains_sub(task_low@, lowercase(entry.keywords@[i]@)))
            || lowered_description_hit(task_low@, lowercase(entry.description@))),
        is_ascii_chars(entry.description@) ==> r == (keyword_hit(task_low@, entry.keywords@)
            || lowered_description_hit(task_low@, ascii_lower(entry.description@))),
{
    keywords_hit(task_low, &entry.keywords) || description_hits(
        task_low,
        entry.description.as_str(),
    )
}

/// The indices below `n` of the skills relevant to the lower-cased task, in
/// order.
pub open spec fn relevant_upto(skills: Seq<SkillEntry>, task_low: Seq<char>, n: int) -> Seq<int>
    decreases n,
{
    if n <= 0 {
        Seq::<int>::empty()
    } else {
        let prev = relevant_upto(skills, task_low, n - 1);
        if skill_relevant(skills[n - 1], task_low) {
            prev.push(n - 1)
        } else {
            prev
        }
    }
}

/// The indices of the skills relevant to a task, in manifest order; the
/// task is lower-cased first.
pub fn relevant_indices(manifest: &SkillManifest, task: &str) -> (r: Vec<usize>)
    ensures
        r@.map_values(|i: usize| i as int) == relevant_upto(
            manifest.skills@,
            lowercase(task@),
            manifest.skills@.len() as int,
        ),
        is_ascii_chars(task@) ==> r@.map_values(|i: usize| i as int) == relevant_upto(
            manifest.skills@,
            ascii_lower(task@),
            manifest.skills@.len() as int,
        ),
{
    let task_low = to_lowercase(task);
    let mut r: Vec<usize> = Vec::new();
    let mut i: usize = 0;
    while i < manifest.skills.len()
        invariant
            i <= manifest.skills@.len(),
            task_low@ == lowercase(task@),
            r@.map_values(|i: usize| i as int) == relevant_upto(
                manifest.skills@,
                task_low@,
                i as int,
            ),
        decreases manifest.skills@.len() - i,
    {
        let ghost prev = r@;
        if is_relevant(&manifest.skills[i], task_low.as_str()) {
            r.push(i);
            assert(r@.map_values(|i: usize| i as int) =~= prev.map_values(|i: usize| i as int).push(
                i as int,
            ));
        }
        i += 1;
    }
    r
}

/// The block of one skill in the prompt: a heading with its name, then its
/// body.
pub open spec fn skill_block(name: Seq<char>, body: Seq<char>) -> Seq<char> {
    "## Skill: "@ + name + "\n"@ + body
}

/// Blocks joined by a rule line; nothing when there are none.
pub open spec fn join_blocks(blocks: Seq<Seq<char>>) -> Seq<char>
    decreases blocks.len(),
{
    if blocks.len() == 0 {
        Seq::<char>::empty()
    } else if blocks.len() == 1 {
        blocks[0]
    } else {
        join_blocks(blocks.drop_last()) + "\n\n---\n\n"@ + blocks.last()
    }
}

/// The blocks of skills whose bodies were read, by name and body.
pub open spec fn skill_blocks(found: Seq<(String, String)>) -> Seq<Seq<char>> {
    found.map_values(|p: (String, String)| skill_block(p.0@, p.1@))
}

/// The text injected into the prompt for the skills found, in order.
pub fn render_skills(found: &Vec<(String, String)>) -> (r: String)
    ensures
        r@ == join_blocks(skill_blocks(found@)),
{
    let mut out = String::new();
    let mut i: usize = 0;
    assert(skill_blocks(found@).take(0) =~= Seq::<Seq<char>>::empty());
    while i < found.len()
        invariant
            i <= found@.len(),
            out@ == join_blocks(skill_blocks(found@).take(i as int)),
        decreases found@.len() - i,
    {
        let block = String::from_str("## Skill: ").concat(found[i].0.as_str()).concat("\n").concat(
            found[i].1.as_str(),
        );
        let ghost prev = out@;
        if i == 0 {
            out = block;
        } else {
            out = out.concat("\n\n---\n\n").concat(block.as_str());
        }
        assert(skill_blocks(found@).take(i + 1).drop_last() =~= skill_blocks(found@).take(i as int));
        i += 1;
    }
    assert(skill_blocks(found@).take(i as int) =~= skill_blocks(found@));
    out
}

/// The blocks of the skills at `idx` whose bodies could be read (`bodies[i]`
/// is the body of skill `i`, or none), in order.
pub open spec fn found_blocks(skills: Seq<SkillEntry>, bodies: Seq<Option<String>>, idx: Seq<int>) -> Seq<Seq<char>>
    decreases idx.len(),
{
    if idx.len() == 0 {
        Seq::<Seq<char>>::empty()
    } else {
        let prev = found_blocks(skills, bodies, idx.drop_last());
        let i = idx.last();
        match bodies[i] {
            Some(b) => prev.push(skill_block(skills[i].name@, b@)),
            None => prev,
        }
    }
}

/// The text injected into the prompt for a task: the blocks of the relevant
/// skills whose bodies could be read, joined; empty when there are none.
pub fn render_relevant(manifest: &SkillManifest, task: &str, bodies: &Vec<Option<String>>) -> (r: String)
    requires
        bodies@.len() == manifest.skills@.len(),
    ensures
        r@ == join_blocks(found_blocks(
            manifest.skills@,
            bodies@,
            relevant_upto(manifest.skills@, lowercase(task@), manifest.skills@.len() as int),
        )),
        is_ascii_chars(task@) ==> r@ == join_blocks(found_blocks(
            manifest.skills@,
            bodies@,
            relevant_upto(manifest.skills@, ascii_lower(task@), manifest.skills@.len() as int),
        )),
{
    let idx = relevant_indices(manifest, task);
    let ghost iv = idx@.map_values(|i: usize| i as int);
    let mut found: Vec<(String, String)> = Vec::new();
    let mut k: usize = 0;
    proof {
        lemma_relevant_upto_in_range(manifest.skills@, lowercase(task@), manifest.skills@.len() as int);
        assert(iv.take(0) =~= Seq::<int>::empty());
    }
    while k < idx.len()
        invariant
            iv == idx@.map_values(|i: usize| i as int),
            iv == relevant_upto(manifest.skills@, lowercase(task@), manifest.skills@.len() as int),
            forall|j: int| 0 <= j < iv.len() ==> 0 <= #[trigger] iv[j] < manifest.skills@.len(),
            bodies@.len() == manifest.skills@.len(),
            k <= idx@.len(),
            skill_blocks(found@) == found_blocks(manifest.skills@, bodies@, iv.take(k as int)),
        decreases idx@.len() - k,
    {
        let i = idx[k];
        assert(iv[k as int] == i as int);
        assert(iv.take(k + 1).drop_last() =~= iv.take(k as int));
        match &bodies[i] {
            Some(b) => {
                let ghost prev = found@;
                found.push((manifest.skills[i].name.clone(), b.clone()));
                assert(skill_blocks(found@) =~= skill_blocks(prev).push(
                    skill_block(manifest.skills@[i as int].name@, bodies@[i as int]->Some_0@),
                ));
            },
            None => {},
        }
        k += 1;
    }
    assert(iv.take(k as int) =~= iv);
    render_skills(&found)
}

/// The indices `relevant_upto` selects are below `n`.
proof fn lemma_relevant_upto_in_range(skills: Seq<SkillEntry>, task_low: Seq<char>, n: int)
    ensures
        forall|j: int|
            0 <= j < relevant_upto(skills, task_low, n).len() ==> 0 <= #[trigger] relevant_upto(
                skills,
                task_low,
                n,
            )[j] < n,
    decreases n,
{
    if n > 0 {
        lemma_relevant_upto_in_range(skills, task_low, n - 1);
        let prev = relevant_upto(skills, task_low, n - 1);
        let cur = relevant_upto(skills, task_low, n);
        assert forall|j: int| 0 <= j < cur.len() implies 0 <= #[trigger] cur[j] < n by {
            if j < prev.len() {
                assert(cur[j] == prev[j]);
            }
        }
    }
}

/// No two registered skills share a name.
pub open spec fn names_unique(skills: Seq<SkillEntry>) -> bool {
    forall|i: int, j: int| 0 <= i < j < skills.len() ==> skills[i].name@ != skills[j].name@
}

/// Registering keeps skill names distinct: a name already there is refused,
/// a new one is appended.
pub proof fn lemma_register_keeps_names_unique(skills: Seq<SkillEntry>, entry: SkillEntry)
    requires
        names_unique(skills),
    ensures
        names_unique(if has_skill(skills, entry.name@) {
            skills
        } else {
            skills.push(entry)
        }),
{
    if !has_skill(skills, entry.name@) {
        let s2 = skills.push(entry);
        assert forall|i: int, j: int| 0 <= i < j < s2.len() implies s2[i].name@ != s2[j].name@ by {
            if j == skills.len() {
                assert(s2[i] == skills[i]);
            } else {
                assert(s2[i] == skills[i] && s2[j] == skills[j]);
            }
        }
    }
}

/// The case of ASCII letters in an ASCII task does not change which skills
/// are relevant: the task, its upper-case and its lower-case form select the
/// same skills (`relevant_indices` selects by `ascii_lower` on ASCII text).
pub proof fn lemma_relevance_ignores_ascii_case(skills: Seq<SkillEntry>, task: Seq<char>)
    requires
        is_ascii_chars(task),
    ensures
        is_ascii_chars(ascii_upper(task)),
        is_ascii_chars(ascii_lower(task)),
        relevant_upto(skills, ascii_lower(ascii_upper(task)), skills.len() as int) == relevant_upto(
            skills,
            ascii_lower(task),
            skills.len() as int,
        ),
        relevant_upto(skills, ascii_lower(ascii_lower(task)), skills.len() as int) == relevant_upto(
            skills,
            ascii_lower(task),
            skills.len() as int,
        ),
{
    lemma_ascii_case_folds(task);
}

/// A skill's relevance is decided on the lower-cased forms of its keywords
/// and of its description: a keyword counts when its lower-case form occurs
/// in the (lower-cased) task, and the description's words are taken from its
/// lower-case form.
pub proof fn lemma_relevance_uses_lowercase(entry: SkillEntry, task_low: Seq<char>)
    ensures
        skill_relevant(entry, task_low) == ((exists|i: int|
            0 <= i < entry.keywords@.len() && contains_sub(task_low, lowercase(entry.keywords@[i]@)))
            || lowered_description_hit(task_low, lowercase(entry.description@))),
{
}

/// For an ASCII description the case of its letters does not matter: it, its
/// upper-case and its lower-case form give the same words to match
/// (`is_relevant` matches ASCII descriptions through `ascii_lower`).
pub proof fn lemma_description_case_irrelevant(task_low: Seq<char>, d: Seq<char>)
    requires
        is_ascii_chars(d),
    ensures
        lowered_description_hit(task_low, ascii_lower(ascii_upper(d))) == lowered_description_hit(
            task_low,
            ascii_lower(d),
        ),
        lowered_description_hit(task_low, ascii_lower(ascii_lower(d))) == lowered_description_hit(
            task_low,
            ascii_lower(d),
        ),
{
    lemma_ascii_case_folds(d);
}

/// A word of the (lower-cased) description that is four bytes or longer,
/// once trimmed of non-alphanumeric ends, and occurs in the task makes the
/// description match.
pub proof fn lemma_long_word_matches(task_low: Seq<char>, desc_low: Seq<char>, i: int)
    requires
        0 <= i < split_class(desc_low, CharClass::Whitespace).len(),
        utf8_len(trim_class(split_class(desc_low, CharClass::Whitespace)[i], CharClass::NotAlphanumeric)) >= 4,
        contains_sub(
            task_low,
            trim_class(split_class(desc_low, CharClass::Whitespace)[i], CharClass::NotAlphanumeric),
        ),
    ensures
        lowered_description_hit(task_low, desc_low),
{
}

/// Words shorter than four bytes never make a description match: when every
/// trimmed word has fewer than four bytes, nothing matches.
pub proof fn lemma_short_words_never_match(task_low: Seq<char>, desc_low: Seq<char>)
    requires
        forall|i: int|
            0 <= i < split_class(desc_low, CharClass::Whitespace).len() ==> utf8_len(
                trim_class(#[trigger] split_class(desc_low, CharClass::Whitespace)[i], CharClass::NotAlphanumeric),
            ) < 4,
    ensures
        !lowered_description_hit(task_low, desc_low),
{
}

} // verus!
