//! Regular expressions of the `fancy_regex` crate, which add look-around to
//! those of `regex`. What the crate finds in a text has a name, as in
//! [`crate::pattern`].

use vstd::prelude::*;

verus! {

/// `fancy_regex::Regex`, a compiled pattern. Nothing is known of what is
/// inside.
#[verifier::external_type_specification]
#[verifier::external_body]
pub struct ExFancyRegex(fancy_regex::Regex);

/// Whether `fancy_regex::Regex::new` accepts `pattern`.
pub uninterp spec fn fancy_compiles(pattern: Seq<char>) -> bool;

/// Whether `fancy_regex::Regex::is_match` finds the pattern in the text:
/// true where the search ends with a match, false where it ends without,
/// or with an error.
pub uninterp spec fn fancy_is_match(pattern: Seq<char>, text: Seq<char>) -> bool;

/// A compiled pattern together with its source text.
pub struct FancyPattern {
    source: String,
    compiled: fancy_regex::Regex,
}

impl View for FancyPattern {
    type V = Seq<char>;

    /// The source text of the pattern.
    closed spec fn view(&self) -> Seq<char> {
        self.source@
    }
}

/// `fancy_regex::Regex::new`: the compiled pattern, kept with its source,
/// where the crate accepts the pattern; `None` where it does not.
#[verifier::external_body]
pub(crate) fn compile_fancy(pattern: &str) -> (r: Option<FancyPattern>)
    ensures
        r.is_some() == fancy_compiles(pattern@),
        r matches Some(p) ==> p@ == pattern@,
{
    match fancy_regex::Regex::new(pattern) {
        Ok(compiled) => Some(FancyPattern { source: pattern.to_string(), compiled }),
        Err(_) => None,
    }
}

/// `fancy_regex::Regex::is_match`: whether the pattern is found in `text`.
/// A search that ends with an error counts as no match.
#[verifier::external_body]
pub(crate) fn is_match(p: &FancyPattern, text: &str) -> (r: bool)
    ensures
        r == fancy_is_match(p@, text@),
{
    match p.compiled.is_match(text) {
        Ok(found) => found,
        Err(_) => false,
    }
}

} // verus!
