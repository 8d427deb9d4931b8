//! Regular expressions of the `regex` crate. What the crate finds in a text
//! is not spelled out here: each result has a name, and the contracts of the
//! functions that use a pattern speak of that name.

use vstd::prelude::*;

verus! {

/// `regex::Regex`, a compiled pattern. Nothing is known of what is inside.
#[verifier::external_type_specification]
#[verifier::external_body]
pub struct ExRegex(regex::Regex);

/// Whether `regex::Regex::new` accepts `pattern`.
pub uninterp spec fn regex_compiles(pattern: Seq<char>) -> bool;

/// What `regex::Regex::replace_all` gives for a pattern, a text and a
/// replacement in which `$` refers to the groups of the match.
pub uninterp spec fn regex_replace_all(
    pattern: Seq<char>,
    text: Seq<char>,
    replacement: Seq<char>,
) -> Seq<char>;

/// What `regex::Regex::replace` gives for a pattern, a text and a
/// replacement that is taken letter for letter.
pub uninterp spec fn regex_replace_first(
    pattern: Seq<char>,
    text: Seq<char>,
    replacement: Seq<char>,
) -> Seq<char>;

/// What `regex::Regex::captures` gives for a pattern and a text: `None`
/// without a match, else the text of each group of the leftmost match,
/// from group 0 on, `None` for a group that took no part in it.
pub uninterp spec fn regex_captures(pattern: Seq<char>, text: Seq<char>) -> Option<
    Seq<Option<Seq<char>>>,
>;

/// A compiled pattern together with its source text.
pub struct Pattern {
    source: String,
    compiled: regex::Regex,
}

impl View for Pattern {
    type V = Seq<char>;

    /// The source text of the pattern.
    closed spec fn view(&self) -> Seq<char> {
        self.source@
    }
}

/// The views of the groups of a match.
pub open spec fn group_views(groups: Seq<Option<String>>) -> Seq<Option<Seq<char>>> {
    Seq::new(
        groups.len(),
        |i: int|
            match groups[i] {
                Some(s) => Some(s@),
                None => None,
            },
    )
}

/// `regex::Regex::new`: the compiled pattern, kept with its source, where
/// the crate accepts the pattern; `None` where it does not.
#[verifier::external_body]
pub(crate) fn compile(pattern: &str) -> (r: Option<Pattern>)
    ensures
        r.is_some() == regex_compiles(pattern@),
        r matches Some(p) ==> p@ == pattern@,
{
    match regex::Regex::new(pattern) {
        Ok(compiled) => Some(Pattern { source: pattern.to_string(), compiled }),
        Err(_) => None,
    }
}

/// `regex::Regex::replace_all` with a replacement string: every match in
/// `text` replaced, `$` in the replacement referring to the groups.
#[verifier::external_body]
pub(crate) fn replace_all(p: &Pattern, text: &str, replacement: &str) -> (r: String)
    ensures
        r@ == regex_replace_all(p@, text@, replacement@),
{
    p.compiled.replace_all(text, replacement).into_owned()
}

/// `regex::Regex::replace` with `regex::NoExpand`: the leftmost match in
/// `text` replaced by `replacement` as it stands.
#[verifier::external_body]
pub(crate) fn replace_first(p: &Pattern, text: &str, replacement: &str) -> (r: String)
    ensures
        r@ == regex_replace_first(p@, text@, replacement@),
{
    p.compiled.replace(text, regex::NoExpand(replacement)).into_owned()
}

/// `regex::Regex::captures`: the groups of the leftmost match in `text`,
/// each copied out as a string.
#[verifier::external_body]
pub(crate) fn captures(p: &Pattern, text: &str) -> (r: Option<Vec<Option<String>>>)
    ensures
        match regex_captures(p@, text@) {
            Some(groups) => r.is_some() && group_views(r.unwrap()@) == groups,
            None => r.is_none(),
        },
{
    match p.compiled.captures(text) {
        Some(c) => Some(c.iter().map(|m| m.map(|m| m.as_str().to_string())).collect()),
        None => None,
    }
}

} // verus!
