//! Scanning a token from left to right: the signs it begins with and the
//! first occurrence of a character.

use vstd::prelude::*;

verus! {

/// `c` is a plus or a minus sign.
pub open spec fn is_sign(c: char) -> bool {
    c == '+' || c == '-'
}

/// Where the signs that stand at `from` and behind it end: the index of the
/// first character at or after `from` that is no sign; `from` when `from`
/// is outside `s`.
pub open spec fn signs_end(s: Seq<char>, from: int) -> int
    decreases s.len() - from,
{
    if 0 <= from < s.len() && is_sign(s[from]) {
        signs_end(s, from + 1)
    } else {
        from
    }
}

/// The index of the first `c` in `s` at or after `from`; `s.len()` when
/// there is none.
pub open spec fn index_of_char(s: Seq<char>, c: char, from: int) -> int
    decreases s.len() - from,
{
    if 0 <= from < s.len() && s[from] != c {
        index_of_char(s, c, from + 1)
    } else if from > s.len() {
        s.len() as int
    } else {
        from
    }
}

/// An index that is known to end the signs at `from` is the one
/// `signs_end` gives.
pub proof fn lemma_signs_end_is(s: Seq<char>, from: int, end: int)
    requires
        0 <= from <= end <= s.len(),
        forall|k: int| from <= k < end ==> is_sign(#[trigger] s[k]),
        end < s.len() ==> !is_sign(s[end]),
    ensures
        signs_end(s, from) == end,
    decreases end - from,
{
    if from < end {
        lemma_signs_end_is(s, from + 1, end);
    }
}

/// The first `c` at or after `from` is preceded by no other `c`.
pub proof fn lemma_index_of_char(s: Seq<char>, c: char, from: int)
    requires
        0 <= from <= s.len(),
    ensures
        from <= index_of_char(s, c, from) <= s.len(),
        forall|k: int| from <= k < index_of_char(s, c, from) ==> #[trigger] s[k] != c,
        index_of_char(s, c, from) < s.len() ==> s[index_of_char(s, c, from)] == c,
    decreases s.len() - from,
{
    if from < s.len() && s[from] != c {
        lemma_index_of_char(s, c, from + 1);
    }
}

/// An index known to hold the first `c` at or after `from` is the one
/// `index_of_char` gives.
pub proof fn lemma_index_of_char_is(s: Seq<char>, c: char, from: int, at: int)
    requires
        0 <= from <= at <= s.len(),
        forall|k: int| from <= k < at ==> #[trigger] s[k] != c,
        at < s.len() ==> s[at] == c,
    ensures
        index_of_char(s, c, from) == at,
    decreases at - from,
{
    if from < at {
        lemma_index_of_char_is(s, c, from + 1, at);
    }
}

/// Where the signs at the start of `s` end.
pub fn skip_signs(s: &[char]) -> (end: usize)
    ensures
        end == signs_end(s@, 0),
        end <= s.len(),
{
    let mut end: usize = 0;
    while end < s.len() && (s[end] == '+' || s[end] == '-')
        invariant
            end <= s.len(),
            forall|k: int| 0 <= k < end ==> is_sign(#[trigger] s@[k]),
        decreases s.len() - end,
    {
        end += 1;
    }
    proof {
        lemma_signs_end_is(s@, 0, end as int);
    }
    end
}

/// The index of the first `c` at or after `from`, or the length of `s`.
pub fn find_char(s: &[char], c: char, from: usize) -> (at: usize)
    requires
        from <= s.len(),
    ensures
        at == index_of_char(s@, c, from as int),
        from <= at <= s.len(),
{
    let mut at: usize = from;
    while at < s.len() && s[at] != c
        invariant
            from <= at <= s.len(),
            forall|k: int| from <= k < at ==> #[trigger] s@[k] != c,
        decreases s.len() - at,
    {
        at += 1;
    }
    proof {
        lemma_index_of_char_is(s@, c, from as int, at as int);
    }
    at
}

/// A copy of `s[from..to]`.
pub fn copy_range(s: &[char], from: usize, to: usize) -> (r: Vec<char>)
    requires
        from <= to <= s.len(),
    ensures
        r@ == s@.subrange(from as int, to as int),
{
    let mut r: Vec<char> = Vec::new();
    let mut k: usize = from;
    while k < to
        invariant
            from <= k <= to <= s.len(),
            r@ == s@.subrange(from as int, k as int),
        decreases to - k,
    {
        r.push(s[k]);
        proof {
            assert(s@.subrange(from as int, k + 1) == s@.subrange(from as int, k as int).push(
                s@[k as int],
            ));
        }
        k += 1;
    }
    r
}

} // verus!
