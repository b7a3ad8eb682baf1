//! Unicode case mapping and character properties, as std computes them.
//! Their tables take pages to state, so each result carries a name of its
//! own and the callers' contracts are written over those names.
use vstd::prelude::*;
use vstd::utf8::is_ascii_chars;

verus! {

/// What `str::to_lowercase` returns for the given characters.
pub uninterp spec fn lowercase(s: Seq<char>) -> Seq<char>;

/// What `str::to_uppercase` returns for the given characters.
pub uninterp spec fn uppercase(s: Seq<char>) -> Seq<char>;

/// What `char::is_alphanumeric` answers for a character.
pub uninterp spec fn alphanumeric(c: char) -> bool;

/// ASCII lower-casing of one character: `A` to `Z` become `a` to `z`.
pub open spec fn ascii_lower_char(c: char) -> char {
    if 'A' <= c && c <= 'Z' {
        ((c as u32) + 32) as char
    } else {
        c
    }
}

/// ASCII upper-casing of one character: `a` to `z` become `A` to `Z`.
pub open spec fn ascii_upper_char(c: char) -> char {
    if 'a' <= c && c <= 'z' {
        ((c as u32) - 32) as char
    } else {
        c
    }
}

/// `str::to_ascii_lowercase`, character by character.
pub open spec fn ascii_lower(s: Seq<char>) -> Seq<char> {
    s.map_values(|c: char| ascii_lower_char(c))
}

/// `str::to_ascii_uppercase`, character by character.
pub open spec fn ascii_upper(s: Seq<char>) -> Seq<char> {
    s.map_values(|c: char| ascii_upper_char(c))
}

/// Calls std's `str::to_lowercase`: the Unicode lowercase mapping of every
/// character. The result is named, a function of the characters alone. The
/// one fact stated is that on ASCII text it is ASCII lower-casing: std's
/// `to_ascii_lowercase` documents that it maps `A`-`Z` to `a`-`z` and that
/// `to_lowercase` lower-cases ASCII characters too, and in the Unicode
/// character database no ASCII character has another lowercase mapping.
/// Nothing is said of other text.
#[verifier::external_body]
pub(crate) fn to_lowercase(s: &str) -> (r: String)
    ensures
        r@ == lowercase(s@),
        is_ascii_chars(s@) ==> r@ == ascii_lower(s@),
{
    s.to_lowercase()
}

/// Calls std's `str::to_uppercase`: the Unicode uppercase mapping of every
/// character. The result is named, a function of the characters alone. The
/// one fact stated is that on ASCII text it is ASCII upper-casing (as for
/// `to_lowercase`: documented by `to_ascii_uppercase`, and no ASCII
/// character has another uppercase mapping). Nothing is said of other text.
#[verifier::external_body]
pub(crate) fn to_uppercase(s: &str) -> (r: String)
    ensures
        r@ == uppercase(s@),
        is_ascii_chars(s@) ==> r@ == ascii_upper(s@),
{
    s.to_uppercase()
}

/// An ASCII letter or digit.
pub open spec fn ascii_alphanumeric(c: char) -> bool {
    ('a' <= c && c <= 'z') || ('A' <= c && c <= 'Z') || ('0' <= c && c <= '9')
}

/// Calls std's `char::is_alphanumeric` (Unicode `Alphabetic` or `Numeric`).
/// The answer is named; the one fact stated is that on an ASCII character
/// it answers whether the character is an ASCII letter or digit, as
/// `char::is_ascii_alphanumeric` documents for the ASCII range and no other
/// ASCII character is alphabetic or numeric in Unicode. Nothing is said of
/// other characters.
#[verifier::external_body]
pub(crate) fn is_alphanumeric(c: char) -> (r: bool)
    ensures
        r == alphanumeric(c),
        c <= '\u{7f}' ==> r == ascii_alphanumeric(c),
{
    c.is_alphanumeric()
}

/// ASCII text folds to one lower-case form whatever its case: upper-casing
/// or lower-casing it first changes nothing, and both stay ASCII.
pub proof fn lemma_ascii_case_folds(s: Seq<char>)
    requires
        is_ascii_chars(s),
    ensures
        is_ascii_chars(ascii_upper(s)),
        is_ascii_chars(ascii_lower(s)),
        ascii_lower(ascii_upper(s)) == ascii_lower(s),
        ascii_lower(ascii_lower(s)) == ascii_lower(s),
{
    assert forall|i: int| 0 <= i < s.len() implies ascii_lower_char(ascii_upper_char(s[i]))
        == ascii_lower_char(s[i]) && ascii_lower_char(ascii_lower_char(s[i])) == ascii_lower_char(
        s[i],
    ) && '\0' <= #[trigger] ascii_upper_char(s[i]) <= '\u{7f}' && '\0' <= ascii_lower_char(s[i])
        <= '\u{7f}' by {
        let c = s[i];
        assert('\0' <= c <= '\u{7f}');
    }
    assert forall|i: int| 0 <= i < ascii_upper(s).len() implies '\0' <= #[trigger] ascii_upper(s)[i]
        <= '\u{7f}' by {
        assert(ascii_upper(s)[i] == ascii_upper_char(s[i]));
    }
    assert forall|i: int| 0 <= i < ascii_lower(s).len() implies '\0' <= #[trigger] ascii_lower(s)[i]
        <= '\u{7f}' by {
        assert(ascii_lower(s)[i] == ascii_lower_char(s[i]));
    }
    assert(ascii_lower(ascii_upper(s)) =~= ascii_lower(s));
    assert(ascii_lower(ascii_lower(s)) =~= ascii_lower(s));
}

} // verus!
