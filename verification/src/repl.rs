//! The grammar of the interactive prompt: meta commands, and goals for the
//! autonomous loop; and the settings read at start-up.
use vstd::prelude::*;
use crate::text::{
    chars_equal, chars_of, starts_with, starts_with_str, string_from_chars, trim, trim_chars,
    trim_class, CharClass,
};

verus! {

/// Index `i` holds the first `c` of `s`.
pub open spec fn first_index_of(s: Seq<char>, c: char, i: int) -> bool {
    &&& 0 <= i < s.len()
    &&& s[i] == c
    &&& forall|j: int| 0 <= j < i ==> s[j] != c
}

/// `str::splitn(n, c)`: at most `n` pieces split at the first `n - 1`
/// occurrences of `c`; the last piece holds the rest.
pub open spec fn splitn(s: Seq<char>, n: nat, c: char) -> Seq<Seq<char>>
    decreases n,
{
    if n == 0 {
        Seq::<Seq<char>>::empty()
    } else if n == 1 || !s.contains(c) {
        seq![s]
    } else {
        let i = choose|i: int| first_index_of(s, c, i);
        seq![s.take(i)] + splitn(s.skip(i + 1), (n - 1) as nat, c)
    }
}

fn copy_range(s: &[char], a: usize, b: usize) -> (r: Vec<char>)
    requires
        a <= b <= s@.len(),
    ensures
        r@ == s@.subrange(a as int, b as int),
{
    let mut r: Vec<char> = Vec::new();
    let mut i: usize = a;
    while i < b
        invariant
            a <= i <= b <= s@.len(),
            r@ == s@.subrange(a as int, i as int),
        decreases b - i,
    {
        r.push(s[i]);
        i += 1;
        assert(r@ =~= s@.subrange(a as int, i as int));
    }
    r
}

/// The index of the first `c` in `s`.
fn find_char(s: &[char], c: char) -> (r: Option<usize>)
    ensures
        match r {
            Some(i) => first_index_of(s@, c, i as int),
            None => !s@.contains(c),
        },
{
    let mut i: usize = 0;
    while i < s.len()
        invariant
            i <= s@.len(),
            forall|j: int| 0 <= j < i ==> s@[j] != c,
        decreases s@.len() - i,
    {
        if s[i] == c {
            return Some(i);
        }
        i += 1;
    }
    None
}

proof fn lemma_first_index_unique(s: Seq<char>, c: char, i: int, k: int)
    requires
        first_index_of(s, c, i),
        first_index_of(s, c, k),
    ensures
        i == k,
{
    if i < k {
        assert(s[i] != c);
    } else if k < i {
        assert(s[k] != c);
    }
}

fn splitn_chars(s: &[char], n: usize, c: char) -> (r: Vec<Vec<char>>)
    ensures
        r@.map_values(|v: Vec<char>| v@) == splitn(s@, n as nat, c),
    decreases n,
{
    if n == 0 {
        let r: Vec<Vec<char>> = Vec::new();
        assert(r@.map_values(|v: Vec<char>| v@) =~= Seq::<Seq<char>>::empty());
        return r;
    }
    let found = find_char(s, c);
    if n == 1 || found.is_none() {
        let mut r: Vec<Vec<char>> = Vec::new();
        r.push(copy_range(s, 0, s.len()));
        proof {
            assert(s@.subrange(0, s@.len() as int) =~= s@);
        }
        assert(r@.map_values(|v: Vec<char>| v@) =~= seq![s@]);
        return r;
    }
    let i = found.unwrap();
    let len = s.len();
    assert(i < len);
    let head = copy_range(s, 0, i);
    let rest = copy_range(s, i + 1, len);
    let tail = splitn_chars(rest.as_slice(), n - 1, c);
    let ghost tv = tail@;
    let mut r = tail;
    r.insert(0, head);
    assert(r@.map_values(|v: Vec<char>| v@) =~= seq![s@.take(i as int)] + tv.map_values(
        |v: Vec<char>| v@,
    ));
    proof {
        assert(s@.contains(c)) by {
            assert(s@[i as int] == c);
        }
        let ch = choose|j: int| first_index_of(s@, c, j);
        lemma_first_index_unique(s@, c, i as int, ch);
        assert(s@.skip(i + 1) =~= rest@);
    }
    r
}

/// A line typed at the prompt.
#[derive(Debug, PartialEq, Eq)]
pub enum Command {
    /// Nothing but whitespace.
    Empty,
    /// `quit`.
    Quit,
    /// `model` alone: show the model in use.
    ShowModel,
    /// `model <slug>`: use this model in every role for the session.
    SetModel(String),
    /// `evolve-code <file> <old_text> <new_text>`.
    EvolveCode { file: String, old: String, new: String },
    /// `add-tool <name> <description>`.
    AddTool { name: String, description: String },
    /// `add-skill <name> <description>`, with the body to scaffold.
    AddSkill { name: String, description: String, body: String },
    /// `skills`: list the registered skills.
    ListSkills,
    /// `evolve`: evolve the prompt.
    Evolve,
    /// Anything else: a goal for the autonomous loop.
    Goal(String),
    /// A meta command with too few arguments; the usage line to show.
    Usage(String),
}

/// `s` without the prefix `p` (when it starts with it).
pub open spec fn after_prefix(s: Seq<char>, p: Seq<char>) -> Seq<char> {
    s.skip(p.len() as int)
}

/// The arguments of `evolve-code`: three pieces split at spaces, each
/// without the double quotes at its ends.
pub open spec fn evolve_code_args(rest: Seq<char>) -> Seq<Seq<char>> {
    splitn(trim(rest), 3, ' ').map_values(|p: Seq<char>| trim_class(p, CharClass::Exactly('"')))
}

/// The body scaffolded for a new skill.
pub open spec fn skill_body(name: Seq<char>, description: Seq<char>) -> Seq<char> {
    "# "@ + name + "\n\n"@ + description + "\n\n(Describe the step-by-step instructions here.)\n"@
}

/// `c` is what the prompt makes of `line`. The line is trimmed; `quit`,
/// `model`, `evolve-code`, `add-tool`, `add-skill`, `skills` and `evolve`
/// are tried in this order (`evolve-code` before `evolve`, which is its
/// prefix), and anything else is a goal.
pub open spec fn parsed_as(c: Command, line: Seq<char>) -> bool {
    let input = trim(line);
    if input.len() == 0 {
        c is Empty
    } else if input == "quit"@ {
        c is Quit
    } else if starts_with(input, "model"@) {
        let slug = trim(after_prefix(input, "model"@));
        if slug.len() == 0 {
            c is ShowModel
        } else {
            c matches Command::SetModel(m) && m@ == slug
        }
    } else if starts_with(input, "evolve-code"@) {
        let parts = evolve_code_args(after_prefix(input, "evolve-code"@));
        if parts.len() < 3 {
            c matches Command::Usage(u) && u@ == "usage: evolve-code <file> <old_text> <new_text>"@
        } else {
            c matches Command::EvolveCode { file, old, new } && file@ == parts[0] && old@ == parts[1]
                && new@ == parts[2]
        }
    } else if starts_with(input, "add-tool"@) {
        let parts = splitn(trim(after_prefix(input, "add-tool"@)), 2, ' ');
        if parts.len() < 2 {
            c matches Command::Usage(u) && u@ == "usage: add-tool <name> <description>"@
        } else {
            c matches Command::AddTool { name, description } && name@ == parts[0] && description@
                == parts[1]
        }
    } else if starts_with(input, "add-skill"@) {
        let parts = splitn(trim(after_prefix(input, "add-skill"@)), 2, ' ');
        if parts.len() < 2 {
            c matches Command::Usage(u) && u@ == "usage: add-skill <name> <description>"@
        } else {
            c matches Command::AddSkill { name, description, body } && name@ == parts[0]
                && description@ == parts[1] && body@ == skill_body(parts[0], parts[1])
        }
    } else if input == "skills"@ {
        c is ListSkills
    } else if starts_with(input, "evolve"@) {
        c is Evolve
    } else {
        c matches Command::Goal(g) && g@ == input
    }
}

/// The characters of `s` after the prefix `p`, which `s` starts with.
fn skip_prefix(s: &[char], p: &str) -> (r: Vec<char>)
    requires
        starts_with(s@, p@),
    ensures
        r@ == after_prefix(s@, p@),
{
    let pc = chars_of(p);
    let r = copy_range(s, pc.len(), s.len());
    assert(r@ =~= s@.skip(p@.len() as int));
    r
}

fn is_word(s: &[char], w: &str) -> (r: bool)
    ensures
        r == (s@ == w@),
{
    let wc = chars_of(w);
    chars_equal(s, wc.as_slice())
}

/// Reads one line typed at the prompt.
pub fn parse_command(line: &str) -> (c: Command)
    ensures
        parsed_as(c, line@),
{
    let lc = chars_of(line);
    let input = trim_chars(lc.as_slice(), CharClass::Whitespace);
    if input.len() == 0 {
        return Command::Empty;
    }
    if is_word(input.as_slice(), "quit") {
        return Command::Quit;
    }
    if starts_with_str(input.as_slice(), "model") {
        let rest = skip_prefix(input.as_slice(), "model");
        let slug = trim_chars(rest.as_slice(), CharClass::Whitespace);
        if slug.len() == 0 {
            return Command::ShowModel;
        }
        return Command::SetModel(string_from_chars(slug.as_slice()));
    }
    if starts_with_str(input.as_slice(), "evolve-code") {
        let rest = skip_prefix(input.as_slice(), "evolve-code");
        let t = trim_chars(rest.as_slice(), CharClass::Whitespace);
        let parts = splitn_chars(t.as_slice(), 3, ' ');
        let ghost pv = parts@.map_values(|v: Vec<char>| v@);
        if parts.len() < 3 {
            return Command::Usage(String::from_str("usage: evolve-code <file> <old_text> <new_text>"));
        }
        assert(pv[0] == parts@[0]@ && pv[1] == parts@[1]@ && pv[2] == parts@[2]@);
        let f = trim_chars(parts[0].as_slice(), CharClass::Exactly('"'));
        let o = trim_chars(parts[1].as_slice(), CharClass::Exactly('"'));
        let n = trim_chars(parts[2].as_slice(), CharClass::Exactly('"'));
        return Command::EvolveCode {
            file: string_from_chars(f.as_slice()),
            old: string_from_chars(o.as_slice()),
            new: string_from_chars(n.as_slice()),
        };
    }
    if starts_with_str(input.as_slice(), "add-tool") {
        let rest = skip_prefix(input.as_slice(), "add-tool");
        let t = trim_chars(rest.as_slice(), CharClass::Whitespace);
        let parts = splitn_chars(t.as_slice(), 2, ' ');
        let ghost pv = parts@.map_values(|v: Vec<char>| v@);
        if parts.len() < 2 {
            return Command::Usage(String::from_str("usage: add-tool <name> <description>"));
        }
        assert(pv[0] == parts@[0]@ && pv[1] == parts@[1]@);
        return Command::AddTool {
            name: string_from_chars(parts[0].as_slice()),
            description: string_from_chars(parts[1].as_slice()),
        };
    }
    if starts_with_str(input.as_slice(), "add-skill") {
        let rest = skip_prefix(input.as_slice(), "add-skill");
        let t = trim_chars(rest.as_slice(), CharClass::Whitespace);
        let parts = splitn_chars(t.as_slice(), 2, ' ');
        let ghost pv = parts@.map_values(|v: Vec<char>| v@);
        if parts.len() < 2 {
            return Command::Usage(String::from_str("usage: add-skill <name> <description>"));
        }
        assert(pv[0] == parts@[0]@ && pv[1] == parts@[1]@);
        let name = string_from_chars(parts[0].as_slice());
        let description = string_from_chars(parts[1].as_slice());
        let body = String::from_str("# ").concat(name.as_str()).concat("\n\n").concat(
            description.as_str(),
        ).concat("\n\n(Describe the step-by-step instructions here.)\n");
        return Command::AddSkill { name, description, body };
    }
    if is_word(input.as_slice(), "skills") {
        return Command::ListSkills;
    }
    if starts_with_str(input.as_slice(), "evolve") {
        return Command::Evolve;
    }
    Command::Goal(string_from_chars(input.as_slice()))
}

/// The model shown at the prompt: the session's choice, else the configured
/// default, else `deepseek-v4-pro`.
pub fn current_model(session_model: Option<String>, configured_default: Option<String>) -> (m: String)
    ensures
        m@ == match session_model {
            Some(s) => s@,
            None => match configured_default {
                Some(d) => d@,
                None => "deepseek-v4-pro"@,
            },
        },
{
    match session_model {
        Some(s) => s,
        None => match configured_default {
            Some(d) => d,
            None => String::from_str("deepseek-v4-pro"),
        },
    }
}

/// The count of observations that escalates a rule: the configured
/// integer (cut to its low 32 bits, as a cast does), three when none is
/// configured.
pub fn escalation_threshold(configured: Option<i64>) -> (t: u32)
    ensures
        t == (match configured {
            Some(v) => v,
            None => 3,
        }) as u32,
{
    let v: i64 = match configured {
        Some(v) => v,
        None => 3,
    };
    v as u32
}

/// A field of a TOML document, as the program's settings read it.
#[derive(Debug, PartialEq, Eq)]
pub enum TomlField {
    /// The text is no TOML document; the parser's message.
    Unparsable(String),
    /// The table or the key is not there.
    Absent,
    Integer(i64),
    Text(String),
    /// A value of another kind.
    Other,
}

/// A TOML field as a value.
pub enum TomlFieldView {
    Unparsable(Seq<char>),
    Absent,
    Integer(i64),
    Text(Seq<char>),
    Other,
}

impl View for TomlField {
    type V = TomlFieldView;

    open spec fn view(&self) -> TomlFieldView {
        match self {
            TomlField::Unparsable(m) => TomlFieldView::Unparsable(m@),
            TomlField::Absent => TomlFieldView::Absent,
            TomlField::Integer(i) => TomlFieldView::Integer(*i),
            TomlField::Text(t) => TomlFieldView::Text(t@),
            TomlField::Other => TomlFieldView::Other,
        }
    }
}

/// What the `toml` crate finds under `key` in the table `table` of the
/// document `text`.
pub uninterp spec fn toml_field(text: Seq<char>, table: Seq<char>, key: Seq<char>) -> TomlFieldView;

/// Parses `text` with `toml::from_str` into a `toml::Value`, then looks up
/// `table` and `key` with `Value::get` and tells the kind of what is there.
/// The result is named; it depends on the three arguments alone.
#[verifier::external_body]
fn lookup_toml(text: &str, table: &str, key: &str) -> (r: TomlField)
    ensures
        r@ == toml_field(text@, table@, key@),
{
    let doc: toml::Value = match toml::from_str(text) {
        Ok(v) => v,
        Err(e) => return TomlField::Unparsable(e.to_string()),
    };
    let section = match doc.get(table) {
        Some(t) => t,
        None => return TomlField::Absent,
    };
    match section.get(key) {
        None => TomlField::Absent,
        Some(toml::Value::Integer(i)) => TomlField::Integer(*i),
        Some(toml::Value::String(s)) => TomlField::Text(s.clone()),
        Some(_) => TomlField::Other,
    }
}

/// The escalation threshold a looked-up field gives: the parser's message
/// when the document does not parse, the integer (cut to 32 bits) when
/// there is one, three otherwise.
pub fn threshold_from_field(field: TomlField) -> (r: Result<u32, String>)
    ensures
        match field@ {
            TomlFieldView::Unparsable(m) => r matches Err(e) && e@ == m,
            TomlFieldView::Integer(v) => r == Ok::<u32, String>(v as u32),
            _ => r == Ok::<u32, String>(3),
        },
{
    match field {
        TomlField::Unparsable(m) => Err(m),
        TomlField::Integer(v) => Ok(escalation_threshold(Some(v))),
        _ => Ok(escalation_threshold(None)),
    }
}

/// The escalation threshold configured in the settings text: the integer
/// `rule_escalation_threshold` of the `[evolution]` table.
pub fn threshold_from_config(text: &str) -> (r: Result<u32, String>)
    ensures
        match toml_field(text@, "evolution"@, "rule_escalation_threshold"@) {
            TomlFieldView::Unparsable(m) => r matches Err(e) && e@ == m,
            TomlFieldView::Integer(v) => r == Ok::<u32, String>(v as u32),
            _ => r == Ok::<u32, String>(3),
        },
{
    threshold_from_field(lookup_toml(text, "evolution", "rule_escalation_threshold"))
}

/// The default model a looked-up field gives: its string, if it is one.
pub fn model_from_field(field: TomlField) -> (r: Option<String>)
    ensures
        match field@ {
            TomlFieldView::Text(t) => r matches Some(m) && m@ == t,
            _ => r is None,
        },
{
    match field {
        TomlField::Text(t) => Some(t),
        _ => None,
    }
}

/// The default model configured in the settings text: the string
/// `default_model` of the `[agent]` table.
pub fn default_model_from_config(text: &str) -> (r: Option<String>)
    ensures
        match toml_field(text@, "agent"@, "default_model"@) {
            TomlFieldView::Text(t) => r matches Some(m) && m@ == t,
            _ => r is None,
        },
{
    model_from_field(lookup_toml(text, "agent", "default_model"))
}

} // verus!
