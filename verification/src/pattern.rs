//! Regular expressions, as far as queries and mutations use them. Matching and
//! replacing are done by the `regex` crate; this module gives its results names
//! that contracts can speak of.

use regex::Regex;
use vstd::prelude::*;

verus! {

/// A compiled regular expression of the `regex` crate.
#[verifier::external_type_specification]
#[verifier::external_body]
pub struct ExRegex(Regex);

/// Whether `pattern` matches somewhere in `text`: what `Regex::is_match` returns.
pub uninterp spec fn regex_is_match(pattern: Regex, text: Seq<char>) -> bool;

/// `text` with every match of `pattern` replaced by `replacement`, matches taken
/// from left to right without overlap: what `Regex::replace_all` returns, as an
/// owned string.
pub uninterp spec fn regex_replace_all(
    pattern: Regex,
    text: Seq<char>,
    replacement: Seq<char>,
) -> Seq<char>;

/// Tests whether `pattern` matches anywhere in `text`.
///
/// Wraps `Regex::is_match`. Nothing is claimed of the result beyond its name:
/// it depends on the pattern and the text alone.
#[verifier::external_body]
pub(crate) fn is_match(pattern: &Regex, text: &str) -> (r: bool)
    ensures
        r == regex_is_match(*pattern, text@),
{
    pattern.is_match(text)
}

/// Replaces every match of `pattern` in `text` by `replacement`.
///
/// Wraps `Regex::replace_all` with a string as the replacement, in which the
/// crate expands `$name` to capture groups. Nothing is claimed of the result
/// beyond its name: it depends on the pattern, the text and the replacement alone.
#[verifier::external_body]
pub(crate) fn replace_all(pattern: &Regex, text: &str, replacement: &str) -> (r: String)
    ensures
        r@ == regex_replace_all(*pattern, text@, replacement@),
{
    pattern.replace_all(text, replacement).into_owned()
}

/// Whether two patterns match the same texts and replace alike.
pub open spec fn same_pattern(a: Regex, b: Regex) -> bool {
    &&& forall|text: Seq<char>| #[trigger] regex_is_match(a, text) == regex_is_match(b, text)
    &&& forall|text: Seq<char>, replacement: Seq<char>| #[trigger]
        regex_replace_all(a, text, replacement) == regex_replace_all(b, text, replacement)
}

/// A copy of `pattern`.
///
/// Wraps `Regex::clone`. The contract says that the copy matches the texts
/// that `pattern` matches, and replaces as `pattern` does.
#[verifier::external_body]
pub(crate) fn clone_pattern(pattern: &Regex) -> (copy: Regex)
    ensures
        same_pattern(copy, *pattern),
{
    pattern.clone()
}

} // verus!
