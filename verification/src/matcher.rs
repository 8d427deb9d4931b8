//! Patterns ready for use. A pattern that cannot be compiled finds nothing
//! and replaces nothing.

use vstd::prelude::*;
use crate::pattern::{
    captures, compile, group_views, regex_captures, regex_compiles, regex_replace_all,
    regex_replace_first, replace_all, replace_first, Pattern,
};
use crate::text::{from_chars, to_chars};

verus! {

/// What a pattern finds in a text: the groups of its leftmost match, from
/// group 0 on; nothing for a pattern that cannot be compiled.
pub open spec fn found(pattern: Seq<char>, text: Seq<char>) -> Option<Seq<Option<Seq<char>>>> {
    if regex_compiles(pattern) {
        regex_captures(pattern, text)
    } else {
        None
    }
}

/// The text of group `i` of a match, where the match has such a group and
/// the group took part.
pub open spec fn group_at(groups: Option<Seq<Option<Seq<char>>>>, i: int) -> Option<Seq<char>> {
    match groups {
        Some(g) => if 0 <= i < g.len() {
            g[i]
        } else {
            None
        },
        None => None,
    }
}

/// A text with every match of a pattern replaced; `$` in the replacement
/// refers to the groups of the match.
pub open spec fn replaced_all(pattern: Seq<char>, text: Seq<char>, replacement: Seq<char>) -> Seq<
    char,
> {
    if regex_compiles(pattern) {
        regex_replace_all(pattern, text, replacement)
    } else {
        text
    }
}

/// A text with the leftmost match of a pattern replaced by the replacement
/// as it stands.
pub open spec fn replaced_first(pattern: Seq<char>, text: Seq<char>, replacement: Seq<char>) -> Seq<
    char,
> {
    if regex_compiles(pattern) {
        regex_replace_first(pattern, text, replacement)
    } else {
        text
    }
}

/// The groups of a match, as characters.
pub type Groups = Option<Vec<Option<Vec<char>>>>;

/// The views of the groups of a match.
pub open spec fn groups_view(groups: Groups) -> Option<Seq<Option<Seq<char>>>> {
    match groups {
        Some(g) => Some(
            Seq::new(
                g.len() as nat,
                |i: int|
                    match g[i] {
                        Some(t) => Some(t@),
                        None => None,
                    },
            ),
        ),
        None => None,
    }
}

/// A pattern with its compiled form, where it has one.
pub struct Matcher {
    source: String,
    compiled: Option<Pattern>,
}

impl View for Matcher {
    type V = Seq<char>;

    /// The text of the pattern.
    closed spec fn view(&self) -> Seq<char> {
        self.source@
    }
}

impl Matcher {
    /// The compiled form is that of the source.
    #[verifier::type_invariant]
    spec fn inv(self) -> bool {
        &&& self.compiled.is_some() == regex_compiles(self.source@)
        &&& self.compiled matches Some(p) ==> p@ == self.source@
    }

    /// Makes a pattern ready for use.
    pub fn new(source: &str) -> (r: Matcher)
        ensures
            r@ == source@,
    {
        Matcher { source: source.to_owned(), compiled: compile(source) }
    }

    /// The groups of the leftmost match of the pattern in `text`.
    pub fn captures(&self, text: &[char]) -> (r: Groups)
        ensures
            groups_view(r) == found(self@, text@),
    {
        proof {
            use_type_invariant(self);
        }
        match &self.compiled {
            Some(p) => {
                let s = from_chars(text);
                match captures(p, s.as_str()) {
                    Some(groups) => {
                        let mut out: Vec<Option<Vec<char>>> = Vec::new();
                        let mut i: usize = 0;
                        while i < groups.len()
                            invariant
                                i <= groups.len(),
                                out.len() == i,
                                forall|k: int|
                                    0 <= k < i ==> groups_view(Some(out))->0[k] == group_views(
                                        groups@,
                                    )[k],
                            decreases groups.len() - i,
                        {
                            let ghost before = out;
                            let g = match &groups[i] {
                                Some(t) => Some(to_chars(t.as_str())),
                                None => None,
                            };
                            out.push(g);
                            proof {
                                assert forall|k: int| 0 <= k <= i implies groups_view(
                                    Some(out),
                                )->0[k] == group_views(groups@)[k] by {
                                    if k < i {
                                        assert(out@[k] == before@[k]);
                                        assert(groups_view(Some(before))->0[k] == group_views(
                                            groups@,
                                        )[k]);
                                    }
                                }
                            }
                            i += 1;
                        }
                        proof {
                            assert(groups_view(Some(out))->0 =~= group_views(groups@));
                        }
                        Some(out)
                    },
                    None => None,
                }
            },
            None => None,
        }
    }

    /// `text` with every match of the pattern replaced.
    pub fn replace_all(&self, text: &[char], replacement: &str) -> (r: Vec<char>)
        ensures
            r@ == replaced_all(self@, text@, replacement@),
    {
        proof {
            use_type_invariant(self);
        }
        match &self.compiled {
            Some(p) => {
                let s = from_chars(text);
                let t = replace_all(p, s.as_str(), replacement);
                to_chars(t.as_str())
            },
            None => {
                let r = crate::scan::copy_range(text, 0, text.len());
                proof {
                    assert(text@.subrange(0, text@.len() as int) == text@);
                }
                r
            },
        }
    }

    /// `text` with the leftmost match of the pattern replaced.
    pub fn replace_first(&self, text: &[char], replacement: &[char]) -> (r: Vec<char>)
        ensures
            r@ == replaced_first(self@, text@, replacement@),
    {
        proof {
            use_type_invariant(self);
        }
        match &self.compiled {
            Some(p) => {
                let s = from_chars(text);
                let with = from_chars(replacement);
                let t = replace_first(p, s.as_str(), with.as_str());
                to_chars(t.as_str())
            },
            None => {
                let r = crate::scan::copy_range(text, 0, text.len());
                proof {
                    assert(text@.subrange(0, text@.len() as int) == text@);
                }
                r
            },
        }
    }
}

/// The text of group `i` of a match.
pub fn group(groups: &Groups, i: usize) -> (r: Option<&Vec<char>>)
    ensures
        match group_at(groups_view(*groups), i as int) {
            Some(t) => r.is_some() && r.unwrap()@ == t,
            None => r.is_none(),
        },
{
    match groups {
        Some(g) => if i < g.len() {
            match &g[i] {
                Some(t) => Some(t),
                None => None,
            }
        } else {
            None
        },
        None => None,
    }
}

} // verus!
