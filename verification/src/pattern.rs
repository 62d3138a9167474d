//! The trusted boundary to the regex engine. Whether a pattern compiles and
//! whether it matches a text are functions of the pattern and the text
//! alone; both get a name here, and the wrappers below are the only places
//! the engine is called.

use vstd::prelude::*;

verus! {

/// Whether the regex engine accepts `pattern` as a valid expression: the
/// success of `regex::Regex::new` on it.
pub uninterp spec fn regex_compiles(pattern: Seq<char>) -> bool;

/// Whether the regular expression `pattern` matches anywhere inside `text`:
/// what `regex::Regex::is_match` answers.
pub uninterp spec fn regex_match(pattern: Seq<char>, text: Seq<char>) -> bool;

/// Relies on `regex::Regex::new`: it succeeds exactly on the patterns the
/// engine accepts, a function of the pattern text alone.
#[verifier::external_body]
pub(crate) fn regex_pattern_valid(pattern: &str) -> (r: bool)
    ensures
        r == regex_compiles(pattern@),
{
    regex::Regex::new(pattern).is_ok()
}

/// Relies on `regex::Regex::new` and `regex::Regex::is_match`: for a pattern
/// the engine accepts, whether it matches anywhere inside `text`; nothing
/// for a pattern it refuses.
#[verifier::external_body]
pub(crate) fn regex_is_match(pattern: &str, text: &str) -> (r: Option<bool>)
    ensures
        r is Some <==> regex_compiles(pattern@),
        r matches Some(b) ==> b == regex_match(pattern@, text@),
{
    match regex::Regex::new(pattern) {
        Ok(re) => Some(re.is_match(text)),
        Err(_) => None,
    }
}

} // verus!
