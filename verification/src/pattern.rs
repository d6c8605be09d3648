//! Compiled regular-expression patterns, taken from the `regex` crate.
//!
//! A compiled pattern is opaque here; what it matches is named by
//! [`regex_match`], a function of the pattern's source text and the haystack
//! alone, and every contract about matching goes through that name.

use vstd::prelude::*;

verus! {

#[verifier::external_type_specification]
#[verifier::external_body]
pub struct ExRegex(regex::Regex);

/// The source text a compiled regex was built from (what
/// `regex::Regex::as_str` reports).
pub uninterp spec fn regex_source(re: regex::Regex) -> Seq<char>;

/// Whether `regex::Regex::new` accepts this pattern text.
pub uninterp spec fn regex_ok(pattern: Seq<char>) -> bool;

/// What `regex::Regex::is_match` returns for this pattern text and haystack.
pub uninterp spec fn regex_match(pattern: Seq<char>, text: Seq<char>) -> bool;

/// Relies on `regex::Regex::new`: it succeeds or fails according to the
/// pattern text alone, and the compiled regex keeps that text as its source.
#[verifier::external_body]
pub(crate) fn regex_compile(pattern: &str) -> (r: Option<regex::Regex>)
    ensures
        r is Some <==> regex_ok(pattern@),
        r matches Some(re) ==> regex_source(re) == pattern@,
{
    regex::Regex::new(pattern).ok()
}

/// Relies on `regex::Regex::is_match`: its result depends only on the
/// regex's source text and the haystack.
#[verifier::external_body]
pub(crate) fn regex_is_match(re: &regex::Regex, text: &str) -> (r: bool)
    ensures
        r == regex_match(regex_source(*re), text@),
{
    re.is_match(text)
}

} // verus!
