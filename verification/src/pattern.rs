use vstd::prelude::*;

verus! {

/// Whether `regex::Regex::new` accepts `pattern` as a regular expression.
/// Acceptance depends on the pattern string alone.
pub uninterp spec fn pattern_compiles(pattern: Seq<char>) -> bool;

/// Whether the regular expression `pattern` matches anywhere inside `text`:
/// the result of `regex::Regex::is_match`, a function of the two strings
/// alone.  A match may cover any part of `text`; the whole line need not
/// match.
pub uninterp spec fn pattern_matches(pattern: Seq<char>, text: Seq<char>) -> bool;

#[verifier::external_type_specification]
#[verifier::external_body]
pub struct ExRegex(regex::Regex);

#[verifier::external_type_specification]
#[verifier::external_body]
pub struct ExRegexError(regex::Error);

/// A compiled regular expression paired with the pattern it was built from.
/// Only `compile_pattern` constructs one, so `re` is always the compilation
/// of `pattern`.
pub(crate) struct CompiledPattern {
    pub(crate) pattern: String,
    pub(crate) re: regex::Regex,
}

/// Relies on `regex::Regex::new`: compilation succeeds or fails depending on
/// the pattern string alone.
#[verifier::external_body]
pub(crate) fn compile_pattern(pattern: &String) -> (r: Result<CompiledPattern, regex::Error>)
    ensures
        r is Ok <==> pattern_compiles(pattern@),
        r matches Ok(cp) ==> cp.pattern@ == pattern@,
{
    match regex::Regex::new(pattern.as_str()) {
        Ok(re) => Ok(CompiledPattern { pattern: pattern.clone(), re }),
        Err(e) => Err(e),
    }
}

/// Relies on `regex::Regex::is_match`: true exactly when the compiled
/// pattern matches somewhere inside `line`, a function of the pattern and
/// the line alone.
#[verifier::external_body]
pub(crate) fn pattern_hit(cp: &CompiledPattern, line: &str) -> (r: bool)
    ensures
        r == pattern_matches(cp.pattern@, line@),
{
    cp.re.is_match(line)
}

} // verus!
