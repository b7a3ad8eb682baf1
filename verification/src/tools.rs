//! Classification of shell commands and the text around the builtin tools.
use vstd::prelude::*;
use crate::text::{
    chars_of, contains_char, contains_chars, split_chars, starts_with, starts_with_str,
    string_from_chars,
    split_class, trim, trim_chars, views, CharClass, extend_chars, signed_decimal,
    signed_decimal_chars, replace_first, replace_first_chars, contains_sub,
};

verus! {

/// The command starts with one of the commands that only read (a plain
/// prefix: `ls` also covers `lsblk`, `git show` also covers `git show-branch`).
pub open spec fn has_readonly_prefix(t: Seq<char>) -> bool {
    ||| starts_with(t, "ls"@)
    ||| starts_with(t, "cat"@)
    ||| starts_with(t, "head"@)
    ||| starts_with(t, "tail"@)
    ||| starts_with(t, "grep"@)
    ||| starts_with(t, "git status"@)
    ||| starts_with(t, "git log"@)
    ||| starts_with(t, "git diff"@)
    ||| starts_with(t, "git show"@)
    ||| starts_with(t, "pwd"@)
    ||| starts_with(t, "echo"@)
    ||| starts_with(t, "find"@)
    ||| starts_with(t, "wc"@)
    ||| starts_with(t, "tree"@)
    ||| starts_with(t, "which"@)
    ||| starts_with(t, "readlink"@)
}

/// A `find` that acts on what it finds: it deletes (`-delete`), runs
/// commands (`-exec`, `-execdir`, `-ok`, `-okdir`) or writes files
/// (`-fprint`, `-fprint0`, `-fprintf`, `-fls`). Any word that begins like one
/// of these counts, erring on the side of asking.
pub open spec fn find_acts(t: Seq<char>) -> bool {
    &&& starts_with(t, "find"@)
    &&& {
        ||| contains_sub(t, "-delete"@)
        ||| contains_sub(t, "-exec"@)
        ||| contains_sub(t, "-ok"@)
        ||| contains_sub(t, "-fprint"@)
        ||| contains_sub(t, "-fls"@)
    }
}

/// One piece of a command line, between separators, may run unasked: once
/// trimmed it is not empty, redirects nothing into a file (no `>`, which also
/// covers `2>`), begins with a read-only command, and is no `find` that
/// deletes, runs commands or writes files.
pub open spec fn readonly_segment(seg: Seq<char>) -> bool {
    let t = trim(seg);
    &&& t.len() > 0
    &&& !t.contains('>')
    &&& has_readonly_prefix(t)
    &&& !find_acts(t)
}

/// A command line is read-only when every piece between `|`, `;`, `&` and
/// newline is.
pub open spec fn readonly_command(command: Seq<char>) -> bool {
    let segs = split_class(command, CharClass::CommandSeparator);
    forall|i: int| 0 <= i < segs.len() ==> readonly_segment(#[trigger] segs[i])
}

fn has_readonly_prefix_chars(t: &[char]) -> (r: bool)
    ensures
        r == has_readonly_prefix(t@),
{
    starts_with_str(t, "ls") || starts_with_str(t, "cat") || starts_with_str(t, "head") || starts_with_str(t, "tail") || starts_with_str(t, "grep")
        || starts_with_str(t, "git status") || starts_with_str(t, "git log")
        || starts_with_str(t, "git diff") || starts_with_str(t, "git show")
        || starts_with_str(t, "pwd") || starts_with_str(t, "echo")
        || starts_with_str(t, "find") || starts_with_str(t, "wc")
        || starts_with_str(t, "tree") || starts_with_str(t, "which")
        || starts_with_str(t, "readlink")
}

fn contains_str(t: &[char], p: &str) -> (r: bool)
    ensures
        r == contains_sub(t@, p@),
{
    let pc = chars_of(p);
    contains_chars(t, pc.as_slice())
}

fn find_acts_chars(t: &[char]) -> (r: bool)
    ensures
        r == find_acts(t@),
{
    starts_with_str(t, "find") && (contains_str(t, "-delete") || contains_str(t, "-exec")
        || contains_str(t, "-ok") || contains_str(t, "-fprint") || contains_str(t, "-fls"))
}

fn readonly_segment_chars(seg: &[char]) -> (r: bool)
    ensures
        r == readonly_segment(seg@),
{
    let t = trim_chars(seg, CharClass::Whitespace);
    if t.len() == 0 {
        return false;
    }
    if contains_char(t.as_slice(), '>') {
        return false;
    }
    has_readonly_prefix_chars(t.as_slice()) && !find_acts_chars(t.as_slice())
}

/// Whether a shell command only reads (and may run without asking) or may
/// change state. When in doubt the answer is `false`: the loop then treats
/// the command as mutating and asks the human.
pub fn is_readonly_bash(command: &str) -> (r: bool)
    ensures
        r == readonly_command(command@),
{
    let cs = chars_of(command);
    let segs = split_chars(cs.as_slice(), CharClass::CommandSeparator);
    let ghost sv = views(segs@);
    let mut i: usize = 0;
    while i < segs.len()
        invariant
            sv == views(segs@),
            sv == split_class(command@, CharClass::CommandSeparator),
            i <= segs@.len(),
            forall|j: int| 0 <= j < i ==> readonly_segment(#[trigger] sv[j]),
        decreases segs@.len() - i,
    {
        if !readonly_segment_chars(segs[i].as_slice()) {
            assert(sv[i as int] == segs@[i as int]@);
            return false;
        }
        assert(sv[i as int] == segs@[i as int]@);
        i += 1;
    }
    true
}

/// The report of a finished shell command: its exit code (`-1` when it has
/// none, as when a signal ended it), then what it wrote to stdout and stderr.
pub open spec fn bash_report(code: Option<i32>, stdout: Seq<char>, stderr: Seq<char>) -> Seq<char> {
    let c: int = match code {
        Some(c) => c as int,
        None => -1,
    };
    "exit="@ + signed_decimal(c) + "\nstdout:\n"@ + stdout + "\nstderr:\n"@ + stderr
}

pub fn format_bash_output(code: Option<i32>, stdout: &str, stderr: &str) -> (r: String)
    ensures
        r@ == bash_report(code, stdout@, stderr@),
{
    let c: i64 = match code {
        Some(c) => c as i64,
        None => -1,
    };
    let mut v = chars_of("exit=");
    let digits = signed_decimal_chars(c);
    extend_chars(&mut v, digits.as_slice());
    let a = chars_of("\nstdout:\n");
    extend_chars(&mut v, a.as_slice());
    let b = chars_of(stdout);
    extend_chars(&mut v, b.as_slice());
    let d = chars_of("\nstderr:\n");
    extend_chars(&mut v, d.as_slice());
    let e = chars_of(stderr);
    extend_chars(&mut v, e.as_slice());
    string_from_chars(v.as_slice())
}

/// The file content after an edit: the first occurrence of `old` replaced by
/// `new`, or `None` when `old` does not occur in `content`.
pub fn apply_edit(content: &str, old: &str, new: &str) -> (r: Option<String>)
    ensures
        match r {
            Some(s) => contains_sub(content@, old@) && s@ == replace_first(content@, old@, new@),
            None => !contains_sub(content@, old@),
        },
{
    let c = chars_of(content);
    let o = chars_of(old);
    let n = chars_of(new);
    match replace_first_chars(c.as_slice(), o.as_slice(), n.as_slice()) {
        Some(v) => Some(string_from_chars(v.as_slice())),
        None => None,
    }
}

/// Commands chained by a separator (`|`, `;`, `&` or newline) are read-only
/// exactly when each of the two sides is.
pub proof fn lemma_chain_readonly(a: Seq<char>, sep: char, b: Seq<char>)
    requires
        crate::text::is_command_separator(sep),
    ensures
        readonly_command(a + seq![sep] + b) == (readonly_command(a) && readonly_command(b)),
{
    crate::text::lemma_split_class_concat(a, sep, b, CharClass::CommandSeparator);
    let pa = split_class(a, CharClass::CommandSeparator);
    let pb = split_class(b, CharClass::CommandSeparator);
    let all = pa + pb;
    if readonly_command(a) && readonly_command(b) {
        assert forall|i: int| 0 <= i < all.len() implies readonly_segment(#[trigger] all[i]) by {
            if i < pa.len() {
                assert(all[i] == pa[i]);
            } else {
                assert(all[i] == pb[i - pa.len()]);
            }
        }
    }
    if readonly_command(a + seq![sep] + b) {
        assert forall|i: int| 0 <= i < pa.len() implies readonly_segment(#[trigger] pa[i]) by {
            assert(all[i] == pa[i]);
        }
        assert forall|i: int| 0 <= i < pb.len() implies readonly_segment(#[trigger] pb[i]) by {
            assert(all[i + pa.len()] == pb[i]);
        }
    }
}

/// A command that redirects output (it holds a `>`) is never read-only.
pub proof fn lemma_redirect_is_mutating(command: Seq<char>)
    requires
        command.contains('>'),
    ensures
        !readonly_command(command),
{
    let k = choose|k: int| 0 <= k < command.len() && command[k] == '>';
    crate::text::lemma_char_in_some_piece(command, CharClass::CommandSeparator, k);
    let segs = split_class(command, CharClass::CommandSeparator);
    let j = choose|j: int| 0 <= j < segs.len() && segs[j].contains(command[k]);
    crate::text::lemma_trim_keeps(segs[j], CharClass::Whitespace, '>');
    assert(!readonly_segment(segs[j]));
}

/// The empty command is not read-only: there is nothing to vouch for.
pub proof fn lemma_empty_command_is_mutating()
    ensures
        !readonly_command(Seq::<char>::empty()),
{
    let segs = split_class(Seq::<char>::empty(), CharClass::CommandSeparator);
    assert(segs[0] == Seq::<char>::empty());
    assert(!readonly_segment(segs[0]));
}

/// Only the known read-only commands run unasked: a piece of a command line
/// that counts as read-only is, once trimmed, non-empty, free of `>`, and
/// begins with one of `ls`, `cat`, `head`, `tail`, `grep`, `git status`,
/// `git log`, `git diff`, `git show`, `pwd`, `echo`, `find`, `wc`, `tree`,
/// `which` or `readlink`. Anything else (`touch`, `tar`, `rm`, ...) asks.
pub proof fn lemma_readonly_segment_is_known_command(seg: Seq<char>)
    requires
        readonly_segment(seg),
    ensures
        trim(seg).len() > 0,
        (!trim(seg).contains('>')),
        (starts_with(trim(seg), "ls"@) || starts_with(trim(seg), "cat"@) || starts_with(trim(seg), "head"@) || starts_with(trim(seg), "tail"@) || starts_with(trim(seg), "grep"@) || starts_with(trim(seg), "git status"@) || starts_with(trim(seg), "git log"@) || starts_with(trim(seg), "git diff"@) || starts_with(trim(seg), "git show"@) || starts_with(trim(seg), "pwd"@) || starts_with(trim(seg), "echo"@) || starts_with(trim(seg), "find"@) || starts_with(trim(seg), "wc"@) || starts_with(trim(seg), "tree"@) || starts_with(trim(seg), "which"@) || starts_with(trim(seg), "readlink"@)),
{
}

/// A command line is read-only only when every one of its pieces begins with
/// a known read-only command.
pub proof fn lemma_readonly_command_pieces(command: Seq<char>, i: int)
    requires
        readonly_command(command),
        0 <= i < split_class(command, CharClass::CommandSeparator).len(),
    ensures
        readonly_segment(split_class(command, CharClass::CommandSeparator)[i]),
{
}

} // verus!
