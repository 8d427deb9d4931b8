//! Character-sequence helpers shared by the parsers and emitters.
//!
//! Text is handled as sequences of `char`. A `&str` is widened once with
//! [`to_chars`]; every helper states its result over `Seq<char>`.

use vstd::prelude::*;

verus! {

/// `String::push`: the character is appended to the string.
pub assume_specification[ String::push ](s: &mut String, c: char)
    ensures
        final(s)@ == old(s)@.push(c),
;

/// `c` is one of the ten ASCII decimal digits.
pub open spec fn is_digit(c: char) -> bool {
    '0' <= c && c <= '9'
}

/// The number a decimal digit stands for.
pub open spec fn digit_value(c: char) -> nat {
    (c as u32 - '0' as u32) as nat
}

/// Every character of `s` is a decimal digit.
pub open spec fn all_digits(s: Seq<char>) -> bool {
    forall|i: int| 0 <= i < s.len() ==> is_digit(#[trigger] s[i])
}

/// The number written by the digit string `s`, most significant digit first.
pub open spec fn digits_value(s: Seq<char>) -> nat
    decreases s.len(),
{
    if s.len() == 0 {
        0
    } else {
        digits_value(s.drop_last()) * 10 + digit_value(s.last())
    }
}

/// ASCII lower-case form of `c`; other characters are unchanged.
pub open spec fn lower_char(c: char) -> char {
    if 'A' <= c && c <= 'Z' {
        ((c as u32) + 32) as char
    } else {
        c
    }
}

/// `s` with every ASCII capital replaced by its lower-case letter.
pub open spec fn lower(s: Seq<char>) -> Seq<char> {
    s.map_values(|c: char| lower_char(c))
}

/// `p` occurs in `s` starting at index `i`.
pub open spec fn occurs_at(s: Seq<char>, p: Seq<char>, i: int) -> bool {
    0 <= i && i + p.len() <= s.len() && s.subrange(i, i + p.len()) == p
}

/// `p` occurs somewhere in `s`.
pub open spec fn has_sub(s: Seq<char>, p: Seq<char>) -> bool {
    exists|i: int| occurs_at(s, p, i)
}

/// `s` begins with `p`.
pub open spec fn has_prefix(s: Seq<char>, p: Seq<char>) -> bool {
    occurs_at(s, p, 0)
}

/// `s` ends with `p`.
pub open spec fn has_suffix(s: Seq<char>, p: Seq<char>) -> bool {
    occurs_at(s, p, s.len() - p.len())
}

/// The views of a vector of strings.
pub open spec fn text_views(v: Seq<String>) -> Seq<Seq<char>> {
    Seq::new(v.len(), |i: int| v[i]@)
}

/// The characters of `s`, in order.
pub fn to_chars(s: &str) -> (v: Vec<char>)
    ensures
        v@ == s@,
{
    let mut v: Vec<char> = Vec::new();
    for c in it: s.chars()
        invariant
            v@ == it.seq().take(it.index() as int),
            it.seq() == s@,
    {
        v.push(c);
    }
    v
}

/// Appends the characters of `s` to `v`.
pub fn extend_str(v: &mut Vec<char>, s: &str)
    ensures
        final(v)@ == old(v)@ + s@,
{
    let ghost before = v@;
    for c in it: s.chars()
        invariant
            v@ == before + it.seq().take(it.index() as int),
            it.seq() == s@,
    {
        v.push(c);
        proof {
            let i = it.index() as int;
            assert(before + s@.take(i + 1) =~= (before + s@.take(i)).push(s@[i]));
        }
    }
    proof {
        assert(s@.take(s@.len() as int) == s@);
    }
}

/// Appends a copy of `more` to `v`.
pub fn extend_chars(v: &mut Vec<char>, more: &[char])
    ensures
        final(v)@ == old(v)@ + more@,
{
    let ghost before = v@;
    let mut i: usize = 0;
    while i < more.len()
        invariant
            i <= more.len(),
            v@ == before + more@.take(i as int),
        decreases more.len() - i,
    {
        v.push(more[i]);
        proof {
            assert(before + more@.take(i + 1) =~= (before + more@.take(i as int)).push(
                more@[i as int],
            ));
        }
        i += 1;
    }
    proof {
        assert(more@.take(more@.len() as int) == more@);
    }
}

/// A string holding exactly the characters of `v`.
pub fn from_chars(v: &[char]) -> (s: String)
    ensures
        s@ == v@,
{
    let mut s = String::new();
    let mut i: usize = 0;
    while i < v.len()
        invariant
            i <= v.len(),
            s@ == v@.take(i as int),
        decreases v.len() - i,
    {
        s.push(v[i]);
        i += 1;
    }
    s
}

/// Whether `c` is a decimal digit.
pub fn char_is_digit(c: char) -> (b: bool)
    ensures
        b == is_digit(c),
{
    '0' <= c && c <= '9'
}

/// The lower-case form of one character.
pub fn char_lower(c: char) -> (r: char)
    ensures
        r == lower_char(c),
{
    if 'A' <= c && c <= 'Z' {
        let n: u8 = c as u8;
        (n + 32) as char
    } else {
        c
    }
}

/// A lower-cased copy of `v`.
pub fn to_lower(v: &[char]) -> (r: Vec<char>)
    ensures
        r@ == lower(v@),
{
    let mut r: Vec<char> = Vec::new();
    let mut i: usize = 0;
    while i < v.len()
        invariant
            i <= v.len(),
            r@ == lower(v@.take(i as int)),
        decreases v.len() - i,
    {
        r.push(char_lower(v[i]));
        proof {
            assert(v@.take(i + 1) == v@.take(i as int).push(v@[i as int]));
            assert(lower(v@.take(i + 1)) =~= lower(v@.take(i as int)).push(lower_char(v@[i as int])));
        }
        i += 1;
    }
    proof {
        assert(v@.take(v@.len() as int) == v@);
    }
    r
}

/// Whether `p` occurs in `s` at index `i`.
pub fn matches_at(s: &[char], p: &[char], i: usize) -> (b: bool)
    ensures
        b == occurs_at(s@, p@, i as int),
{
    if i > s.len() || p.len() > s.len() - i {
        return false;
    }
    let mut k: usize = 0;
    while k < p.len()
        invariant
            k <= p.len(),
            i + p.len() <= s.len(),
            forall|j: int| 0 <= j < k ==> s@[i + j] == p@[j],
        decreases p.len() - k,
    {
        if s[i + k] != p[k] {
            proof {
                assert(s@.subrange(i as int, i + p@.len())[k as int] == s@[i + k]);
            }
            return false;
        }
        k += 1;
    }
    proof {
        assert(s@.subrange(i as int, i + p@.len()) =~= p@);
    }
    true
}

/// Whether `a` and `b` hold the same characters.
pub fn equal(a: &[char], b: &[char]) -> (r: bool)
    ensures
        r == (a@ == b@),
{
    if a.len() != b.len() {
        return false;
    }
    let r = matches_at(a, b, 0);
    proof {
        assert(a@.subrange(0, a@.len() as int) == a@);
    }
    r
}

/// Whether `s` begins with `p`.
pub fn starts_with(s: &[char], p: &[char]) -> (b: bool)
    ensures
        b == has_prefix(s@, p@),
{
    matches_at(s, p, 0)
}

/// Whether `s` ends with `p`.
pub fn ends_with(s: &[char], p: &[char]) -> (b: bool)
    ensures
        b == has_suffix(s@, p@),
{
    if p.len() > s.len() {
        return false;
    }
    matches_at(s, p, s.len() - p.len())
}

/// Whether `p` occurs anywhere in `s`.
pub fn contains(s: &[char], p: &[char]) -> (b: bool)
    ensures
        b == has_sub(s@, p@),
{
    if p.len() > s.len() {
        return false;
    }
    let last: usize = s.len() - p.len();
    let mut i: usize = 0;
    loop
        invariant
            i <= last,
            last == s.len() - p.len(),
            forall|j: int| 0 <= j < i ==> !occurs_at(s@, p@, j),
        decreases last - i,
    {
        if matches_at(s, p, i) {
            return true;
        }
        if i == last {
            return false;
        }
        i += 1;
    }
}

} // verus!
