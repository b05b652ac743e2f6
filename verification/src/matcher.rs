//! Pattern compilation and matching. A `CompiledMatcher` owns a regular
//! expression compiled once per invocation from the user's pattern and the
//! case-sensitivity flag; every test, and every highlight rewrite, goes
//! through it. The regex engine itself is outside code: its behaviour is
//! stated here as named results of the effective pattern and the haystack,
//! and everything built on top is verified against those names.

use vstd::prelude::*;
use vstd::string::StringExecFns;

verus! {

/// The compiled regular expression type of the regex crate, opaque here.
#[verifier::external_type_specification]
#[verifier::external_body]
pub struct ExRegex(regex::Regex);

/// The compile-error type of the regex crate, opaque here.
#[verifier::external_type_specification]
#[verifier::external_body]
pub struct ExRegexError(regex::Error);

/// Whether the regex crate accepts `pat` as a valid pattern: acceptance is a
/// function of the pattern text alone.
pub uninterp spec fn pattern_compiles(pat: Seq<char>) -> bool;

/// The result of testing `text` against the pattern `pat`: a function of the
/// two texts alone.
pub uninterp spec fn regex_matches(pat: Seq<char>, text: Seq<char>) -> bool;

/// The result of replacing every non-overlapping match of `pat` in `text`
/// with the replacement template `rep`: a function of the three texts alone.
pub uninterp spec fn replaced_of(pat: Seq<char>, text: Seq<char>, rep: Seq<char>) -> Seq<char>;

/// A compiled matcher: the executable regex together with the effective
/// pattern text it was compiled from. Immutable after construction.
pub struct CompiledMatcher {
    regex: regex::Regex,
    pattern: String,
}

impl CompiledMatcher {
    /// The effective pattern this matcher was compiled from.
    pub closed spec fn pat(&self) -> Seq<char> {
        self.pattern@
    }
}

/// Relies on regex::Regex::new: whether it returns Ok depends on the pattern
/// text alone, and the returned matcher matches by that same pattern.
#[verifier::external_body]
fn regex_new(pat: &str) -> (r: Result<CompiledMatcher, regex::Error>)
    ensures
        r is Ok <==> pattern_compiles(pat@),
        r is Ok ==> r->Ok_0.pat() == pat@,
{
    match regex::Regex::new(pat) {
        Ok(re) => Ok(CompiledMatcher { regex: re, pattern: pat.to_owned() }),
        Err(e) => Err(e),
    }
}

/// Relies on regex::Regex::is_match: true if and only if the pattern matches
/// somewhere in the haystack, a function of pattern and haystack alone.
#[verifier::external_body]
pub(crate) fn regex_is_match(m: &CompiledMatcher, text: &str) -> (r: bool)
    ensures
        r == regex_matches(m.pat(), text@),
{
    m.regex.is_match(text)
}

/// Relies on regex::Regex::replace_all: rewrites every non-overlapping match
/// by the replacement template, a function of pattern, haystack and template.
#[verifier::external_body]
pub(crate) fn regex_replace_all(m: &CompiledMatcher, text: &str, rep: &str) -> (r: String)
    ensures
        r@ == replaced_of(m.pat(), text@, rep@),
{
    m.regex.replace_all(text, rep).into_owned()
}

/// The pattern was not a valid regular expression; fatal for the whole
/// invocation, since no target can be scanned without a matcher.
#[derive(Clone, Copy, Debug, PartialEq, Eq, Structural)]
pub struct PatternError;

/// The pattern text handed to the engine: the user pattern, prefixed with the
/// case-insensitivity modifier when `ignore_case` is set.
pub open spec fn spec_effective_pattern(pattern: Seq<char>, ignore_case: bool) -> Seq<char> {
    if ignore_case {
        "(?i)"@ + pattern
    } else {
        pattern
    }
}

/// Compiles `pattern` into a matcher, prefixing the case-insensitivity
/// modifier when `ignore_case` is set; the user-visible pattern string is
/// not changed. Fails exactly when the effective pattern is not a valid
/// regular expression.
pub fn compile(pattern: &str, ignore_case: bool) -> (r: Result<CompiledMatcher, PatternError>)
    ensures
        r is Ok <==> pattern_compiles(spec_effective_pattern(pattern@, ignore_case)),
        r is Ok ==> r->Ok_0.pat() == spec_effective_pattern(pattern@, ignore_case),
{
    let compiled = if ignore_case {
        let effective = String::from_str("(?i)").concat(pattern);
        regex_new(effective.as_str())
    } else {
        regex_new(pattern)
    };
    match compiled {
        Ok(m) => Ok(m),
        Err(_) => Err(PatternError),
    }
}

} // verus!
