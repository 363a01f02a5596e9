//! The boundary to the regular-expression engine.
//!
//! Pattern compilation and capture extraction are done by the `regex` crate;
//! both are pure functions of the pattern text and the haystack, so their
//! results are given names that the rest of the library's contracts speak of.

use vstd::prelude::*;

verus! {

/// Whether `pattern` is a regular expression that `regex::Regex::new` accepts.
pub uninterp spec fn regex_compiles(pattern: Seq<char>) -> bool;

/// The capture groups that matching `pattern` against `text` yields:
/// `None` when the pattern does not match; otherwise one entry per capture
/// group, group 0 first, where a group that did not participate in the match
/// is `None`. Meaningful only when `regex_compiles(pattern)`.
pub uninterp spec fn regex_captures(pattern: Seq<char>, text: Seq<char>) -> Option<
    Seq<Option<Seq<char>>>,
>;

/// The characters of each captured group in an executable capture list.
pub open spec fn captures_view(caps: Seq<Option<String>>) -> Seq<Option<Seq<char>>> {
    caps.map_values(
        |o: Option<String>|
            match o {
                Some(s) => Some(s@),
                None => None,
            },
    )
}

/// Relies on `regex::Regex::new`: whether a pattern compiles depends on the
/// pattern text alone. Returns the compiler's error message on failure.
#[verifier::external_body]
pub(crate) fn compile_failure(pattern: &str) -> (r: Option<String>)
    ensures
        r is None <==> regex_compiles(pattern@),
{
    match regex::Regex::new(pattern) {
        Ok(_) => None,
        Err(e) => Some(e.to_string()),
    }
}

/// Relies on `regex::Regex::new` and `regex::Regex::captures`: the leftmost
/// match and its capture groups depend on the pattern and the haystack alone.
/// The pattern is compiled here so that the capture groups can be stated over
/// the pattern text; a pattern that does not compile yields `None`.
#[verifier::external_body]
pub(crate) fn run_captures(pattern: &str, text: &str) -> (r: Option<Vec<Option<String>>>)
    ensures
        regex_compiles(pattern@) ==> match (r, regex_captures(pattern@, text@)) {
            (Some(v), Some(groups)) => captures_view(v@) == groups,
            (None, None) => true,
            _ => false,
        },
        !regex_compiles(pattern@) ==> r is None,
{
    let re = regex::Regex::new(pattern).ok()?;
    let caps = re.captures(text)?;
    Some(caps.iter().map(|g| g.map(|m| m.as_str().to_string())).collect())
}

} // verus!
