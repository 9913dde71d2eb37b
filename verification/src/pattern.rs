//! Regular-expression replacement through the `regex` crate.
//!
//! A `Pattern` is only built by `compile`, from the pattern text that its
//! view records, so the replacement results below are those of that text.

use vstd::prelude::*;

verus! {

#[verifier::external_type_specification]
#[verifier::external_body]
pub struct ExRegex(regex::Regex);

#[verifier::external_type_specification]
#[verifier::external_body]
pub struct ExRegexError(regex::Error);

/// Whether `regex::Regex::new` accepts a pattern.
pub uninterp spec fn regex_compiles(pattern: Seq<char>) -> bool;

/// The text that `regex::Regex::replace_all` produces for a pattern, a
/// haystack and a replacement string (in which `$name` refers to a group).
pub uninterp spec fn regex_replace_all(
    pattern: Seq<char>,
    haystack: Seq<char>,
    replacement: Seq<char>,
) -> Seq<char>;

/// A compiled regular expression together with the text it was compiled from.
pub struct Pattern {
    re: regex::Regex,
    source: Ghost<Seq<char>>,
}

impl View for Pattern {
    type V = Seq<char>;

    closed spec fn view(&self) -> Seq<char> {
        self.source@
    }
}

/// `regex::Regex::new`: succeeds exactly for the patterns that the crate
/// accepts; the pattern's view is the text it was compiled from.
#[verifier::external_body]
pub fn compile(pattern: &str) -> (r: Result<Pattern, regex::Error>)
    ensures
        r is Ok <==> regex_compiles(pattern@),
        r matches Ok(p) ==> p@ == pattern@,
{
    match regex::Regex::new(pattern) {
        Ok(re) => Ok(Pattern { re, source: Ghost(pattern@) }),
        Err(e) => Err(e),
    }
}

/// `regex::Regex::replace_all` with a string replacement, on characters.
#[verifier::external_body]
pub fn replace_all(p: &Pattern, haystack: &[char], replacement: &str) -> (r: Vec<char>)
    ensures
        r@ == regex_replace_all(p@, haystack@, replacement@),
{
    let h: String = haystack.iter().collect();
    p.re.replace_all(&h, replacement).chars().collect()
}

} // verus!
