//! The regex boundary.  The pipeline's cleanup and link detection run
//! on `regex::Regex`; the compiled regex is opaque here, so its pattern
//! text and the results of the calls are named by uninterpreted
//! functions, and every contract speaks through those names.

use vstd::prelude::*;
use crate::errors::PatternError;
use crate::text::views_of_strings;

verus! {

#[verifier::external_type_specification]
#[verifier::external_body]
pub struct ExRegex(regex::Regex);

#[verifier::external_type_specification]
#[verifier::external_body]
pub struct ExRegexError(regex::Error);

/// The pattern text a compiled regex holds (`Regex::as_str`).
pub uninterp spec fn pattern_of(re: regex::Regex) -> Seq<char>;

/// Whether `regex::Regex::new` accepts a pattern (with its default
/// size limit); compilation is a function of the pattern text alone.
pub uninterp spec fn regex_ok(p: Seq<char>) -> bool;

/// What `regex::Regex::replace_all` returns for a pattern, a haystack
/// and a replacement.
pub uninterp spec fn replaced_all(pat: Seq<char>, text: Seq<char>, rep: Seq<char>) -> Seq<char>;

/// The successive non-overlapping matches `regex::Regex::find_iter`
/// yields for a pattern and a haystack.
pub uninterp spec fn found_matches(pat: Seq<char>, text: Seq<char>) -> Seq<Seq<char>>;

/// `sub` occurs contiguously somewhere in `whole`.
pub open spec fn is_substring(sub: Seq<char>, whole: Seq<char>) -> bool {
    exists|k: int|
        0 <= k && k + sub.len() <= whole.len() && sub == #[trigger] whole.subrange(
            k,
            k + sub.len(),
        )
}

/// Relies on `regex::Regex::new`: it compiles the pattern or reports an
/// error, deciding by the pattern text alone, and the compiled regex
/// keeps its pattern text (`Regex::as_str` returns it).
#[verifier::external_body]
fn regex_new(p: &str) -> (r: Result<regex::Regex, regex::Error>)
    ensures
        (r is Ok) == regex_ok(p@),
        r matches Ok(re) ==> pattern_of(re) == p@,
{
    regex::Regex::new(p)
}

/// Relies on `regex::Regex::replace_all`: it replaces every
/// non-overlapping match of the regex in `text` with the expansion of
/// `rep` (a `&str` replacement expands `$` group references; this crate
/// only ever passes the empty replacement), and the result depends on
/// the pattern, the haystack and the replacement alone.
#[verifier::external_body]
pub(crate) fn regex_replace_all(re: &regex::Regex, text: &str, rep: &str) -> (r: String)
    ensures
        r@ == replaced_all(pattern_of(*re), text@, rep@),
{
    re.replace_all(text, rep).into_owned()
}

/// Relies on `regex::Regex::find_iter` and `Match::as_str`: the
/// iterator yields the successive non-overlapping matches of the regex
/// in the haystack, each match text a substring of the haystack, and
/// the match list depends on the pattern and the haystack alone.
#[verifier::external_body]
pub(crate) fn regex_find_matches(re: &regex::Regex, text: &str) -> (r: Vec<String>)
    ensures
        views_of_strings(r@) == found_matches(pattern_of(*re), text@),
        forall|i: int| 0 <= i < r@.len() ==> is_substring(#[trigger] r@[i]@, text@),
{
    let mut out: Vec<String> = Vec::new();
    for m in re.find_iter(text) {
        out.push(m.as_str().to_string());
    }
    out
}

/// Compile a cleanup or link-detection pattern, failing fast with
/// `InvalidPattern` exactly when the pattern text is rejected.
pub fn compile_pattern(p: &str) -> (r: Result<regex::Regex, PatternError>)
    ensures
        (r is Ok) == regex_ok(p@),
        r matches Ok(re) ==> pattern_of(re) == p@,
        r matches Err(e) ==> e == PatternError::InvalidPattern,
{
    match regex_new(p) {
        Ok(re) => Ok(re),
        Err(_) => Err(PatternError::InvalidPattern),
    }
}

} // verus!
