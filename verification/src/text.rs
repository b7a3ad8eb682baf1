//! Character-sequence helpers. Every string is handled through its view, the
//! sequence of Unicode scalar values (`Seq<char>`) that it holds.
use vstd::prelude::*;

verus! {

/// Appends one character to a `String` (std's `String::push`).
#[verifier::external_body]
pub(crate) fn push_char(s: &mut String, c: char)
    ensures
        final(s)@ == old(s)@.push(c),
{
    s.push(c);
}

/// The characters of `s`, in order.
pub fn chars_of(s: &str) -> (v: Vec<char>)
    ensures
        v@ == s@,
{
    let mut v: Vec<char> = Vec::new();
    for c in it: s.chars()
        invariant
            v@ == it.seq().take(it.index() as int),
            it.seq() == s@,
    {
        v.push(c);
    }
    v
}

/// A `String` holding exactly the characters of `v`.
pub fn string_from_chars(v: &[char]) -> (s: String)
    ensures
        s@ == v@,
{
    let mut s = String::new();
    let mut i: usize = 0;
    while i < v.len()
        invariant
            i <= v@.len(),
            s@ == v@.take(i as int),
        decreases v@.len() - i,
    {
        push_char(&mut s, v[i]);
        i += 1;
        assert(s@ =~= v@.take(i as int));
    }
    assert(v@.take(i as int) =~= v@);
    s
}

} // verus!

verus! {

/// A class of characters that trimming and splitting work with.
#[derive(Clone, Copy, Debug, PartialEq, Eq)]
pub enum CharClass {
    /// Characters with the Unicode `White_Space` property (`char::is_whitespace`).
    Whitespace,
    /// One given character.
    Exactly(char),
    /// Characters that are neither alphabetic nor numeric (`char::is_alphanumeric`;
    /// in the ASCII range, whatever is no letter or digit).
    NotAlphanumeric,
    /// The shell command separators `|`, `;`, `&` and newline.
    CommandSeparator,
}

/// The Unicode `White_Space` property, as `char::is_whitespace` documents it.
pub open spec fn is_whitespace(c: char) -> bool {
    let u = c as u32;
    ||| 0x9 <= u <= 0xD
    ||| u == 0x20
    ||| u == 0x85
    ||| u == 0xA0
    ||| u == 0x1680
    ||| 0x2000 <= u <= 0x200A
    ||| u == 0x2028
    ||| u == 0x2029
    ||| u == 0x202F
    ||| u == 0x205F
    ||| u == 0x3000
}

pub open spec fn is_command_separator(c: char) -> bool {
    c == '|' || c == ';' || c == '&' || c == '\n'
}

pub open spec fn in_class(cls: CharClass, c: char) -> bool {
    match cls {
        CharClass::Whitespace => is_whitespace(c),
        CharClass::Exactly(d) => c == d,
        CharClass::NotAlphanumeric => if c <= '\u{7f}' {
            !crate::unicode::ascii_alphanumeric(c)
        } else {
            !crate::unicode::alphanumeric(c)
        },
        CharClass::CommandSeparator => is_command_separator(c),
    }
}

pub fn is_whitespace_char(c: char) -> (r: bool)
    ensures
        r == is_whitespace(c),
{
    let u = c as u32;
    (0x9 <= u && u <= 0xD) || u == 0x20 || u == 0x85 || u == 0xA0 || u == 0x1680
        || (0x2000 <= u && u <= 0x200A) || u == 0x2028 || u == 0x2029 || u == 0x202F
        || u == 0x205F || u == 0x3000
}

pub fn class_contains(cls: CharClass, c: char) -> (r: bool)
    ensures
        r == in_class(cls, c),
{
    match cls {
        CharClass::Whitespace => is_whitespace_char(c),
        CharClass::Exactly(d) => c == d,
        CharClass::NotAlphanumeric => !crate::unicode::is_alphanumeric(c),
        CharClass::CommandSeparator => c == '|' || c == ';' || c == '&' || c == '\n',
    }
}

/// `s` without the characters of `cls` at its start.
pub open spec fn trim_start_class(s: Seq<char>, cls: CharClass) -> Seq<char>
    decreases s.len(),
{
    if s.len() > 0 && in_class(cls, s[0]) {
        trim_start_class(s.drop_first(), cls)
    } else {
        s
    }
}

/// `s` without the characters of `cls` at its end.
pub open spec fn trim_end_class(s: Seq<char>, cls: CharClass) -> Seq<char>
    decreases s.len(),
{
    if s.len() > 0 && in_class(cls, s.last()) {
        trim_end_class(s.drop_last(), cls)
    } else {
        s
    }
}

/// `s` without the characters of `cls` at either end (`str::trim_matches`).
pub open spec fn trim_class(s: Seq<char>, cls: CharClass) -> Seq<char> {
    trim_end_class(trim_start_class(s, cls), cls)
}

/// `str::trim`: whitespace removed at both ends.
pub open spec fn trim(s: Seq<char>) -> Seq<char> {
    trim_class(s, CharClass::Whitespace)
}

pub fn trim_chars(s: &[char], cls: CharClass) -> (r: Vec<char>)
    ensures
        r@ == trim_class(s@, cls),
{
    let n = s.len();
    let mut a: usize = 0;
    assert(s@.subrange(0, n as int) =~= s@);
    while a < n && class_contains(cls, s[a])
        invariant
            a <= n == s@.len(),
            trim_start_class(s@, cls) == trim_start_class(s@.subrange(a as int, n as int), cls),
        decreases n - a,
    {
        assert(s@.subrange(a as int, n as int).drop_first() =~= s@.subrange(a + 1, n as int));
        a += 1;
    }
    assert(trim_start_class(s@, cls) == s@.subrange(a as int, n as int));
    let mut b: usize = n;
    while b > a && class_contains(cls, s[b - 1])
        invariant
            a <= b <= n == s@.len(),
            trim_class(s@, cls) == trim_end_class(s@.subrange(a as int, b as int), cls),
        decreases b,
    {
        assert(s@.subrange(a as int, b as int).drop_last() =~= s@.subrange(a as int, b - 1));
        b -= 1;
    }
    let mut r: Vec<char> = Vec::new();
    let mut i: usize = a;
    while i < b
        invariant
            a <= i <= b <= n == s@.len(),
            r@ == s@.subrange(a as int, i as int),
        decreases b - i,
    {
        r.push(s[i]);
        i += 1;
        assert(r@ =~= s@.subrange(a as int, i as int));
    }
    r
}

/// The pieces of `s` between the characters of `cls` (`str::split` with a
/// character predicate): one more piece than there are separators, empty
/// pieces included.
pub open spec fn split_class(s: Seq<char>, cls: CharClass) -> Seq<Seq<char>>
    decreases s.len(),
{
    if s.len() == 0 {
        seq![Seq::<char>::empty()]
    } else {
        let prev = split_class(s.drop_last(), cls);
        if in_class(cls, s.last()) {
            prev.push(Seq::<char>::empty())
        } else {
            prev.update(prev.len() - 1, prev.last().push(s.last()))
        }
    }
}

pub proof fn lemma_split_class_nonempty(s: Seq<char>, cls: CharClass)
    ensures
        split_class(s, cls).len() >= 1,
    decreases s.len(),
{
    if s.len() > 0 {
        lemma_split_class_nonempty(s.drop_last(), cls);
    }
}

/// The views of a sequence of character vectors.
pub open spec fn views(v: Seq<Vec<char>>) -> Seq<Seq<char>> {
    v.map_values(|x: Vec<char>| x@)
}

pub fn split_chars(s: &[char], cls: CharClass) -> (r: Vec<Vec<char>>)
    ensures
        views(r@) == split_class(s@, cls),
{
    let mut done: Vec<Vec<char>> = Vec::new();
    let mut cur: Vec<char> = Vec::new();
    let mut i: usize = 0;
    assert(s@.take(0) =~= Seq::<char>::empty());
    assert(views(done@).push(cur@) =~= seq![Seq::<char>::empty()]);
    while i < s.len()
        invariant
            i <= s@.len(),
            split_class(s@.take(i as int), cls) == views(done@).push(cur@),
        decreases s@.len() - i,
    {
        let c = s[i];
        let ghost before = views(done@);
        let ghost cur_before = cur@;
        assert(s@.take(i + 1).drop_last() =~= s@.take(i as int));
        assert(s@.take(i + 1).last() == c);
        if class_contains(cls, c) {
            let piece = cur;
            done.push(piece);
            cur = Vec::new();
            assert(views(done@) =~= before.push(cur_before));
            assert(views(done@).push(cur@) =~= before.push(cur_before).push(Seq::<char>::empty()));
        } else {
            cur.push(c);
            assert(views(done@).push(cur@) =~= before.push(cur_before).update(
                before.len() as int,
                cur_before.push(c),
            ));
        }
        i += 1;
    }
    let ghost before = views(done@);
    done.push(cur);
    assert(views(done@) =~= before.push(done@.last()@));
    assert(s@.take(s@.len() as int) =~= s@);
    done
}

/// `p` is a prefix of `s`.
pub open spec fn starts_with(s: Seq<char>, p: Seq<char>) -> bool {
    p.len() <= s.len() && s.subrange(0, p.len() as int) == p
}

/// `p` occurs in `s` at index `i`.
pub open spec fn occurs_at(s: Seq<char>, p: Seq<char>, i: int) -> bool {
    0 <= i && i + p.len() <= s.len() && s.subrange(i, i + p.len()) == p
}

/// `p` occurs somewhere in `s` (`str::contains` with a string pattern).
pub open spec fn contains_sub(s: Seq<char>, p: Seq<char>) -> bool {
    exists|i: int| occurs_at(s, p, i)
}

pub fn chars_equal(a: &[char], b: &[char]) -> (r: bool)
    ensures
        r == (a@ == b@),
{
    if a.len() != b.len() {
        return false;
    }
    let mut i: usize = 0;
    while i < a.len()
        invariant
            a@.len() == b@.len(),
            i <= a@.len(),
            forall|j: int| 0 <= j < i ==> a@[j] == b@[j],
        decreases a@.len() - i,
    {
        if a[i] != b[i] {
            return false;
        }
        i += 1;
    }
    assert(a@ =~= b@);
    true
}

/// Equality of two strings by their characters.
pub fn str_eq(a: &str, b: &str) -> (r: bool)
    ensures
        r == (a@ == b@),
{
    let va = chars_of(a);
    let vb = chars_of(b);
    chars_equal(va.as_slice(), vb.as_slice())
}

pub fn occurs_at_index(s: &[char], p: &[char], i: usize) -> (r: bool)
    ensures
        r == occurs_at(s@, p@, i as int),
{
    if i > s.len() || p.len() > s.len() - i {
        return false;
    }
    let n = s.len();
    let mut j: usize = 0;
    while j < p.len()
        invariant
            n == s@.len(),
            i + p@.len() <= s@.len(),
            j <= p@.len(),
            forall|k: int| 0 <= k < j ==> s@[i + k] == p@[k],
        decreases p@.len() - j,
    {
        if s[i + j] != p[j] {
            assert(s@.subrange(i as int, i + p@.len())[j as int] != p@[j as int]);
            return false;
        }
        j += 1;
    }
    assert(s@.subrange(i as int, i + p@.len()) =~= p@);
    true
}

pub fn starts_with_chars(s: &[char], p: &[char]) -> (r: bool)
    ensures
        r == starts_with(s@, p@),
{
    occurs_at_index(s, p, 0)
}

/// The first index at which `p` occurs in `s`, if it occurs (`str::find`).
pub fn find_chars(s: &[char], p: &[char]) -> (r: Option<usize>)
    ensures
        match r {
            Some(i) => occurs_at(s@, p@, i as int) && forall|j: int| 0 <= j < i ==> !occurs_at(
                s@,
                p@,
                j,
            ),
            None => !contains_sub(s@, p@),
        },
{
    if p.len() > s.len() {
        return None;
    }
    let last = s.len() - p.len();
    let mut i: usize = 0;
    loop
        invariant
            last + p@.len() == s@.len(),
            i <= last,
            forall|j: int| 0 <= j < i ==> !occurs_at(s@, p@, j),
        decreases last - i,
    {
        if occurs_at_index(s, p, i) {
            return Some(i);
        }
        if i == last {
            assert forall|j: int| !occurs_at(s@, p@, j) by {
                if occurs_at(s@, p@, j) {
                    assert(j <= last);
                }
            }
            return None;
        }
        i += 1;
    }
}

pub fn contains_chars(s: &[char], p: &[char]) -> (r: bool)
    ensures
        r == contains_sub(s@, p@),
{
    match find_chars(s, p) {
        Some(_) => true,
        None => false,
    }
}

/// `str::contains` for two strings.
pub fn str_contains(s: &str, p: &str) -> (r: bool)
    ensures
        r == contains_sub(s@, p@),
{
    let vs = chars_of(s);
    let vp = chars_of(p);
    contains_chars(vs.as_slice(), vp.as_slice())
}

/// `s` with the first occurrence of `old` replaced by `new`, when `old`
/// occurs (`str::replacen(old, new, 1)` on a string that contains `old`).
pub open spec fn replace_first(s: Seq<char>, old: Seq<char>, new: Seq<char>) -> Seq<char>
    recommends
        contains_sub(s, old),
{
    let i = choose|i: int| occurs_at(s, old, i) && forall|j: int| 0 <= j < i ==> !occurs_at(s, old, j);
    s.subrange(0, i) + new + s.subrange(i + old.len(), s.len() as int)
}

pub proof fn lemma_first_occurrence_unique(s: Seq<char>, p: Seq<char>, i: int, k: int)
    requires
        occurs_at(s, p, i),
        forall|j: int| 0 <= j < i ==> !occurs_at(s, p, j),
        occurs_at(s, p, k),
        forall|j: int| 0 <= j < k ==> !occurs_at(s, p, j),
    ensures
        i == k,
{
    if i < k {
        assert(!occurs_at(s, p, i));
    } else if k < i {
        assert(!occurs_at(s, p, k));
    }
}

/// Replaces the first occurrence of `old` in `content` by `new`; `None` when
/// `old` does not occur.
pub fn replace_first_chars(content: &[char], old: &[char], new: &[char]) -> (r: Option<Vec<char>>)
    ensures
        match r {
            Some(v) => contains_sub(content@, old@) && v@ == replace_first(content@, old@, new@),
            None => !contains_sub(content@, old@),
        },
{
    match find_chars(content, old) {
        None => None,
        Some(i) => {
            let n = content.len();
            let mut v: Vec<char> = Vec::new();
            let mut k: usize = 0;
            while k < i
                invariant
                    i + old@.len() <= content@.len(),
                    k <= i,
                    v@ == content@.subrange(0, k as int),
                decreases i - k,
            {
                v.push(content[k]);
                k += 1;
                assert(v@ =~= content@.subrange(0, k as int));
            }
            let mut m: usize = 0;
            while m < new.len()
                invariant
                    i + old@.len() <= content@.len(),
                    m <= new@.len(),
                    v@ == content@.subrange(0, i as int) + new@.subrange(0, m as int),
                decreases new@.len() - m,
            {
                v.push(new[m]);
                m += 1;
                assert(v@ =~= content@.subrange(0, i as int) + new@.subrange(0, m as int));
            }
            assert(i + old@.len() <= n);
            let mut t: usize = i + old.len();
            assert(v@ =~= content@.subrange(0, i as int) + new@ + content@.subrange(
                i + old@.len(),
                t as int,
            ));
            while t < content.len()
                invariant
                    i + old@.len() <= t <= content@.len(),
                    v@ == content@.subrange(0, i as int) + new@ + content@.subrange(
                        i + old@.len(),
                        t as int,
                    ),
                decreases content@.len() - t,
            {
                v.push(content[t]);
                t += 1;
                assert(v@ =~= content@.subrange(0, i as int) + new@ + content@.subrange(
                    i + old@.len(),
                    t as int,
                ));
            }
            proof {
                let c = choose|c: int|
                    occurs_at(content@, old@, c) && forall|j: int|
                        0 <= j < c ==> !occurs_at(content@, old@, j);
                assert(occurs_at(content@, old@, i as int));
                lemma_first_occurrence_unique(content@, old@, i as int, c);
            }
            Some(v)
        },
    }
}

pub fn contains_char(s: &[char], c: char) -> (r: bool)
    ensures
        r == s@.contains(c),
{
    let mut i: usize = 0;
    while i < s.len()
        invariant
            i <= s@.len(),
            forall|j: int| 0 <= j < i ==> s@[j] != c,
        decreases s@.len() - i,
    {
        if s[i] == c {
            assert(s@[i as int] == c);
            return true;
        }
        i += 1;
    }
    false
}

/// `p` is a prefix of the characters `s`.
pub fn starts_with_str(s: &[char], p: &str) -> (r: bool)
    ensures
        r == starts_with(s@, p@),
{
    let vp = chars_of(p);
    starts_with_chars(s, vp.as_slice())
}

/// Appends the characters of `tail` to `v`.
pub fn extend_chars(v: &mut Vec<char>, tail: &[char])
    ensures
        final(v)@ == old(v)@ + tail@,
{
    let mut i: usize = 0;
    while i < tail.len()
        invariant
            i <= tail@.len(),
            v@ == old(v)@ + tail@.take(i as int),
        decreases tail@.len() - i,
    {
        v.push(tail[i]);
        i += 1;
        assert(v@ =~= old(v)@ + tail@.take(i as int));
    }
    assert(tail@.take(i as int) =~= tail@);
}

/// The decimal digit for `d < 10`.
pub open spec fn digit_char(d: nat) -> char {
    if d == 0 { '0' }
    else if d == 1 { '1' }
    else if d == 2 { '2' }
    else if d == 3 { '3' }
    else if d == 4 { '4' }
    else if d == 5 { '5' }
    else if d == 6 { '6' }
    else if d == 7 { '7' }
    else if d == 8 { '8' }
    else { '9' }
}

/// The decimal notation of a natural number, as `Display` writes it.
pub open spec fn decimal(n: nat) -> Seq<char>
    decreases n,
{
    if n < 10 {
        seq![digit_char(n)]
    } else {
        decimal(n / 10).push(digit_char(n % 10))
    }
}

/// The decimal notation of an integer, with a leading `-` when negative.
pub open spec fn signed_decimal(n: int) -> Seq<char> {
    if n < 0 {
        seq!['-'] + decimal((-n) as nat)
    } else {
        decimal(n as nat)
    }
}

fn digit(d: u64) -> (c: char)
    requires
        d < 10,
    ensures
        c == digit_char(d as nat),
{
    if d == 0 { '0' }
    else if d == 1 { '1' }
    else if d == 2 { '2' }
    else if d == 3 { '3' }
    else if d == 4 { '4' }
    else if d == 5 { '5' }
    else if d == 6 { '6' }
    else if d == 7 { '7' }
    else if d == 8 { '8' }
    else { '9' }
}

/// The decimal digits of `n`.
pub fn decimal_chars(n: u64) -> (v: Vec<char>)
    ensures
        v@ == decimal(n as nat),
    decreases n,
{
    if n < 10 {
        let mut v: Vec<char> = Vec::new();
        v.push(digit(n));
        assert(v@ =~= seq![digit_char(n as nat)]);
        v
    } else {
        let mut v = decimal_chars(n / 10);
        v.push(digit(n % 10));
        v
    }
}

/// The decimal notation of a signed 64-bit integer.
pub fn signed_decimal_chars(n: i64) -> (v: Vec<char>)
    ensures
        v@ == signed_decimal(n as int),
{
    if n < 0 {
        let magnitude: u64 = if n == i64::MIN {
            9223372036854775808u64
        } else {
            (-n) as u64
        };
        let digits = decimal_chars(magnitude);
        let mut v: Vec<char> = Vec::new();
        v.push('-');
        extend_chars(&mut v, digits.as_slice());
        assert(v@ =~= seq!['-'] + decimal((-(n as int)) as nat));
        v
    } else {
        decimal_chars(n as u64)
    }
}

/// A line without the carriage return of a `\r\n` ending.
pub open spec fn strip_cr(l: Seq<char>) -> Seq<char> {
    if l.len() > 0 && l.last() == '\r' {
        l.drop_last()
    } else {
        l
    }
}

/// The lines of `s` as `str::lines` yields them: the pieces between `\n`,
/// each ended by one dropping a `\r` before it, and a last piece that is
/// empty left out.
pub open spec fn lines(s: Seq<char>) -> Seq<Seq<char>> {
    let p = split_class(s, CharClass::Exactly('\n'));
    let n = p.len();
    let init = p.take(n - 1).map_values(|l: Seq<char>| strip_cr(l));
    if p[n - 1].len() == 0 {
        init
    } else {
        init.push(p[n - 1])
    }
}

pub fn strip_cr_chars(l: Vec<char>) -> (r: Vec<char>)
    ensures
        r@ == strip_cr(l@),
{
    let mut l = l;
    if l.len() > 0 && l[l.len() - 1] == '\r' {
        l.pop();
    }
    l
}

pub fn lines_chars(s: &[char]) -> (r: Vec<Vec<char>>)
    ensures
        views(r@) == lines(s@),
{
    let pieces = split_chars(s, CharClass::Exactly('\n'));
    let ghost p = views(pieces@);
    proof {
        lemma_split_class_nonempty(s@, CharClass::Exactly('\n'));
    }
    let n = pieces.len();
    let mut out: Vec<Vec<char>> = Vec::new();
    let mut pieces = pieces;
    let last = pieces.pop().unwrap();
    let mut i: usize = 0;
    while i < n - 1
        invariant
            n == p.len(),
            n >= 1,
            pieces@.len() == n - 1,
            forall|j: int| 0 <= j < n - 1 ==> pieces@[j]@ == p[j],
            i <= n - 1,
            views(out@) == p.take(i as int).map_values(|l: Seq<char>| strip_cr(l)),
        decreases n - 1 - i,
    {
        let piece = pieces[i].clone();
        let stripped = strip_cr_chars(piece);
        let ghost prev = views(out@);
        out.push(stripped);
        assert(views(out@) =~= prev.push(strip_cr(p[i as int])));
        assert(p.take(i + 1).map_values(|l: Seq<char>| strip_cr(l)) =~= p.take(
            i as int,
        ).map_values(|l: Seq<char>| strip_cr(l)).push(strip_cr(p[i as int])));
        i += 1;
    }
    if last.len() == 0 {
        out
    } else {
        let ghost prev = views(out@);
        out.push(last);
        assert(views(out@) =~= prev.push(p[n - 1]));
        out
    }
}

/// Splitting at a separator between two texts splits each of them.
pub proof fn lemma_split_class_concat(a: Seq<char>, c: char, b: Seq<char>, cls: CharClass)
    requires
        in_class(cls, c),
    ensures
        split_class(a + seq![c] + b, cls) == split_class(a, cls) + split_class(b, cls),
    decreases b.len(),
{
    let s = a + seq![c] + b;
    if b.len() == 0 {
        assert(s.drop_last() =~= a);
        assert(split_class(b, cls) =~= seq![Seq::<char>::empty()]);
        assert(split_class(s, cls) =~= split_class(a, cls) + split_class(b, cls));
    } else {
        let b1 = b.drop_last();
        lemma_split_class_concat(a, c, b1, cls);
        lemma_split_class_nonempty(b1, cls);
        lemma_split_class_nonempty(a, cls);
        assert(s.drop_last() =~= a + seq![c] + b1);
        assert(s.last() == b.last());
        let pa = split_class(a, cls);
        let pb1 = split_class(b1, cls);
        if in_class(cls, b.last()) {
            assert(split_class(s, cls) =~= pa + split_class(b, cls));
        } else {
            assert(split_class(s, cls) =~= pa + split_class(b, cls));
        }
    }
}

/// A character outside the class ends up in one of the pieces.
pub proof fn lemma_char_in_some_piece(s: Seq<char>, cls: CharClass, k: int)
    requires
        0 <= k < s.len(),
        !in_class(cls, s[k]),
    ensures
        exists|j: int| 0 <= j < split_class(s, cls).len() && split_class(s, cls)[j].contains(s[k]),
    decreases s.len(),
{
    let prev = split_class(s.drop_last(), cls);
    lemma_split_class_nonempty(s.drop_last(), cls);
    let n = prev.len() - 1;
    if k == s.len() - 1 {
        let last = prev.last().push(s.last());
        assert(split_class(s, cls)[n] == last);
        assert(last[last.len() - 1] == s[k]);
    } else {
        lemma_char_in_some_piece(s.drop_last(), cls, k);
        let j = choose|j: int| 0 <= j < prev.len() && prev[j].contains(s.drop_last()[k]);
        assert(s.drop_last()[k] == s[k]);
        let x = s[k];
        let i = choose|i: int| 0 <= i < prev[j].len() && prev[j][i] == x;
        if in_class(cls, s.last()) || j != n {
            assert(split_class(s, cls)[j] == prev[j]);
        } else {
            assert(split_class(s, cls)[j] == prev[j].push(s.last()));
            assert(split_class(s, cls)[j][i] == x);
        }
    }
}

/// Trimming keeps every character that is not in the trimmed class.
pub proof fn lemma_trim_keeps(p: Seq<char>, cls: CharClass, x: char)
    requires
        p.contains(x),
        !in_class(cls, x),
    ensures
        trim_class(p, cls).contains(x),
{
    lemma_trim_start_keeps(p, cls, x);
    lemma_trim_end_keeps(trim_start_class(p, cls), cls, x);
}

proof fn lemma_trim_start_keeps(p: Seq<char>, cls: CharClass, x: char)
    requires
        p.contains(x),
        !in_class(cls, x),
    ensures
        trim_start_class(p, cls).contains(x),
    decreases p.len(),
{
    if p.len() > 0 && in_class(cls, p[0]) {
        let i = choose|i: int| 0 <= i < p.len() && p[i] == x;
        assert(i != 0);
        assert(p.drop_first()[i - 1] == x);
        lemma_trim_start_keeps(p.drop_first(), cls, x);
    }
}

proof fn lemma_trim_end_keeps(p: Seq<char>, cls: CharClass, x: char)
    requires
        p.contains(x),
        !in_class(cls, x),
    ensures
        trim_end_class(p, cls).contains(x),
    decreases p.len(),
{
    if p.len() > 0 && in_class(cls, p.last()) {
        let i = choose|i: int| 0 <= i < p.len() && p[i] == x;
        assert(i != p.len() - 1);
        assert(p.drop_last()[i] == x);
        lemma_trim_end_keeps(p.drop_last(), cls, x);
    }
}

} // verus!
