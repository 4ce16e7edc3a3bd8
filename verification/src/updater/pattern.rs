//! Regular expressions from the `regex` crate, kept with the text of their pattern.
use vstd::prelude::*;

verus! {

#[verifier::external_type_specification]
#[verifier::external_body]
pub struct ExRegex(regex::Regex);

/// Whether `regex::Regex::new` accepts `pattern`.
pub uninterp spec fn regex_compiles(pattern: Seq<char>) -> bool;

/// Whether the regular expression `pattern` matches somewhere in `haystack`,
/// as `regex::Regex::is_match` decides it.
pub uninterp spec fn regex_is_match(pattern: Seq<char>, haystack: Seq<char>) -> bool;

/// A regular expression together with the pattern it was compiled from. Its
/// fields are private to this module, where only `compile_pattern` makes one, so
/// `regex` is always `pattern` compiled.
pub struct CompiledPattern {
    pattern: String,
    regex: regex::Regex,
}

impl CompiledPattern {
    pub closed spec fn spec_pattern(&self) -> Seq<char> {
        self.pattern@
    }
}

/// `regex::Regex::new`: compiles `pattern`. The contract claims only that the
/// result is there exactly when the crate accepts the pattern (a property of the
/// pattern alone) and that it keeps the pattern's text.
#[verifier::external_body]
pub(crate) fn compile_pattern(pattern: &str) -> (compiled: Option<CompiledPattern>)
    ensures
        compiled is Some <==> regex_compiles(pattern@),
        compiled matches Some(c) ==> c.spec_pattern() == pattern@,
{
    regex::Regex::new(pattern).ok().map(|regex| CompiledPattern { pattern: pattern.to_owned(), regex })
}

/// `regex::Regex::is_match`: whether the compiled pattern matches somewhere in
/// `haystack`. The contract names the crate's answer as a function of the pattern's
/// text and the haystack.
#[verifier::external_body]
pub(crate) fn pattern_is_match(compiled: &CompiledPattern, haystack: &str) -> (found: bool)
    ensures
        found == regex_is_match(compiled.spec_pattern(), haystack@),
{
    compiled.regex.is_match(haystack)
}

} // verus!
