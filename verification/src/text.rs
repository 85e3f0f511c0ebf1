//! Comparisons of text that the standard library carries out.

use vstd::prelude::*;

verus! {

/// `c` with an upper-case ASCII letter replaced by its lower-case form.
pub open spec fn ascii_lower(c: char) -> char {
    if 'A' <= c && c <= 'Z' {
        ((c as u32) + 32) as char
    } else {
        c
    }
}

/// `text` with every upper-case ASCII letter replaced by its lower-case
/// form.
pub open spec fn ascii_folded(text: Seq<char>) -> Seq<char> {
    text.map_values(|c: char| ascii_lower(c))
}

/// Whether `text` ends with `suffix`.
pub open spec fn has_suffix(text: Seq<char>, suffix: Seq<char>) -> bool {
    suffix.len() <= text.len() && text.subrange(text.len() - suffix.len(), text.len() as int)
        == suffix
}

/// Whether `a` and `b` hold the same text.
///
/// Trusted: this is the equality of `str` of the standard library, which
/// compares the two texts character by character.
#[verifier::external_body]
pub(crate) fn same_text(a: &str, b: &str) -> (same: bool)
    ensures
        same == (a@ == b@),
{
    a == b
}

/// Whether `a` and `b` hold the same text but for the case of ASCII
/// letters.
///
/// Trusted: this is `str::eq_ignore_ascii_case` of the standard library,
/// which compares the two texts after turning the ASCII letters of both to
/// lower case.
#[verifier::external_body]
pub(crate) fn same_text_ignoring_ascii_case(a: &str, b: &str) -> (same: bool)
    ensures
        same == (ascii_folded(a@) == ascii_folded(b@)),
{
    a.eq_ignore_ascii_case(b)
}

/// Whether `text` ends with `suffix`.
///
/// Trusted: this is `str::ends_with` of the standard library with a text
/// as its pattern, which says whether the pattern matches the end of the
/// text.
#[verifier::external_body]
pub(crate) fn ends_with(text: &str, suffix: &str) -> (ends: bool)
    ensures
        ends == has_suffix(text@, suffix@),
{
    text.ends_with(suffix)
}

} // verus!
