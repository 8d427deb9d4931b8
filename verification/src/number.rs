//! Decimal digit strings: reading them into machine integers and writing
//! integers back out.

use vstd::prelude::*;
use crate::text::{all_digits, char_is_digit, digit_value, digits_value, is_digit};

verus! {

/// Ten to the power `k`.
pub open spec fn pow10(k: nat) -> nat
    decreases k,
{
    if k == 0 {
        1
    } else {
        10 * pow10((k - 1) as nat)
    }
}

/// The character that writes the digit `d`.
pub open spec fn digit_char(d: nat) -> char {
    ('0' as u32 + d as u32) as char
}

/// The shortest decimal writing of `n`.
pub open spec fn decimal_digits(n: nat) -> Seq<char>
    decreases n,
{
    if n < 10 {
        seq![digit_char(n)]
    } else {
        decimal_digits(n / 10).push(digit_char(n % 10))
    }
}

/// The last `width` decimal digits of `n`, zero-padded on the left.
pub open spec fn fixed_digits(n: nat, width: nat) -> Seq<char>
    decreases width,
{
    if width == 0 {
        Seq::empty()
    } else {
        fixed_digits(n / 10, (width - 1) as nat).push(digit_char(n % 10))
    }
}

/// `n` written with at least two digits.
pub open spec fn two_digits(n: nat) -> Seq<char> {
    if n < 10 {
        seq!['0', digit_char(n)]
    } else {
        decimal_digits(n)
    }
}

/// A prefix of a digit string never writes a larger number than the whole.
pub proof fn lemma_digits_value_prefix(s: Seq<char>, i: int)
    requires
        0 <= i <= s.len(),
    ensures
        digits_value(s.take(i)) <= digits_value(s),
    decreases s.len() - i,
{
    if i == s.len() {
        assert(s.take(i) == s);
    } else {
        lemma_digits_value_prefix(s, i + 1);
        assert(s.take(i + 1).drop_last() == s.take(i));
    }
}

/// The value of two digit strings written one after the other.
pub proof fn lemma_digits_value_concat(a: Seq<char>, b: Seq<char>)
    ensures
        digits_value(a + b) == digits_value(a) * pow10(b.len()) + digits_value(b),
    decreases b.len(),
{
    if b.len() == 0 {
        assert(a + b == a);
        assert(digits_value(a) * 1 == digits_value(a));
    } else {
        lemma_digits_value_concat(a, b.drop_last());
        assert((a + b).drop_last() == a + b.drop_last());
        assert((a + b).last() == b.last());
        let x = digits_value(a) as int;
        let p = pow10(b.drop_last().len()) as int;
        let y = digits_value(b.drop_last()) as int;
        let d = digit_value(b.last()) as int;
        assert(digits_value(a + b) == (x * p + y) * 10 + d);
        assert(digits_value(b) == y * 10 + d);
        assert(pow10(b.len()) == 10 * p);
        assert((x * p + y) * 10 == x * (10 * p) + y * 10) by (nonlinear_arith);
    }
}

/// The digit character of a digit is a digit and stands for it.
pub proof fn lemma_digit_char(d: nat)
    requires
        d < 10,
    ensures
        is_digit(digit_char(d)),
        digit_value(digit_char(d)) == d,
        digit_char(d) != '.',
        digit_char(d) != '-',
        digit_char(d) != '+',
{
}

/// The shortest writing of a number is a non-empty digit string that
/// writes the number.
pub proof fn lemma_decimal_digits(n: nat)
    ensures
        decimal_digits(n).len() >= 1,
        all_digits(decimal_digits(n)),
        digits_value(decimal_digits(n)) == n,
    decreases n,
{
    if n < 10 {
        lemma_digit_char(n);
        let s = decimal_digits(n);
        assert(s.drop_last() =~= Seq::<char>::empty());
        assert(digits_value(s.drop_last()) == 0);
    } else {
        lemma_decimal_digits(n / 10);
        lemma_digit_char(n % 10);
        let s = decimal_digits(n);
        assert(s.drop_last() == decimal_digits(n / 10));
    }
}

/// The fixed-width writing of a number is a digit string of that width
/// that writes the number modulo the power of ten of the width.
pub proof fn lemma_fixed_digits(n: nat, width: nat)
    ensures
        fixed_digits(n, width).len() == width,
        all_digits(fixed_digits(n, width)),
        digits_value(fixed_digits(n, width)) == n % pow10(width),
    decreases width,
{
    if width == 0 {
    } else {
        lemma_fixed_digits(n / 10, (width - 1) as nat);
        lemma_digit_char(n % 10);
        let s = fixed_digits(n, width);
        assert(s.drop_last() == fixed_digits(n / 10, (width - 1) as nat));
        let p = pow10((width - 1) as nat) as int;
        lemma_pow10_increases(0, (width - 1) as nat);
        vstd::arithmetic::div_mod::lemma_breakdown(n as int, 10, p);
        assert(pow10(width) == 10 * p);
    }
}

/// The value of a non-empty digit string, or `None` when the string is
/// empty, holds another character, or writes more than `u64::MAX`.
pub open spec fn read_u64(s: Seq<char>) -> Option<u64> {
    if s.len() > 0 && all_digits(s) && digits_value(s) <= u64::MAX {
        Some(digits_value(s) as u64)
    } else {
        None
    }
}

/// As [`read_u64`], for `u32`.
pub open spec fn read_u32(s: Seq<char>) -> Option<u32> {
    if s.len() > 0 && all_digits(s) && digits_value(s) <= u32::MAX {
        Some(digits_value(s) as u32)
    } else {
        None
    }
}

/// Reads a digit string into a `u64`.
pub fn parse_u64(s: &[char]) -> (r: Option<u64>)
    ensures
        r == read_u64(s@),
{
    if s.len() == 0 {
        return None;
    }
    let mut acc: u64 = 0;
    let mut i: usize = 0;
    while i < s.len()
        invariant
            i <= s.len(),
            all_digits(s@.take(i as int)),
            acc == digits_value(s@.take(i as int)),
        decreases s.len() - i,
    {
        let c = s[i];
        if !char_is_digit(c) {
            return None;
        }
        let d: u64 = (c as u32 - '0' as u32) as u64;
        proof {
            assert(s@.take(i + 1).drop_last() == s@.take(i as int));
            lemma_digits_value_prefix(s@, i + 1);
        }
        if acc > (u64::MAX - d) / 10 {
            return None;
        }
        acc = acc * 10 + d;
        i += 1;
    }
    proof {
        assert(s@.take(s@.len() as int) == s@);
    }
    Some(acc)
}

/// Reads a digit string into a `u32`.
pub fn parse_u32(s: &[char]) -> (r: Option<u32>)
    ensures
        r == read_u32(s@),
{
    match parse_u64(s) {
        Some(n) => if n <= 0xffff_ffff {
            Some(n as u32)
        } else {
            None
        },
        None => {
            proof {
                if s@.len() > 0 && all_digits(s@) {
                    assert(digits_value(s@) > u64::MAX);
                }
            }
            None
        },
    }
}

/// Powers of ten grow with the exponent.
pub proof fn lemma_pow10_increases(a: nat, b: nat)
    requires
        a <= b,
    ensures
        0 < pow10(a) <= pow10(b),
    decreases b,
{
    if a < b {
        lemma_pow10_increases(a, (b - 1) as nat);
    } else if a > 0 {
        lemma_pow10_increases((a - 1) as nat, (a - 1) as nat);
    }
}

/// The value of the twenty-sixth power of ten.
pub proof fn lemma_pow10_26()
    ensures
        pow10(26) == 100_000_000_000_000_000_000_000_000,
{
    reveal_with_fuel(pow10, 27);
}

/// Ten to the power `k`, for the exponents whose power fits.
pub fn pow10_u128(k: u32) -> (r: u128)
    requires
        k <= 26,
    ensures
        r == pow10(k as nat),
        0 < r <= 100_000_000_000_000_000_000_000_000,
{
    let mut r: u128 = 1;
    let mut i: u32 = 0;
    while i < k
        invariant
            i <= k <= 26,
            r == pow10(i as nat),
        decreases k - i,
    {
        proof {
            lemma_pow10_increases((i + 1) as nat, 26);
            lemma_pow10_26();
        }
        r = r * 10;
        i += 1;
    }
    proof {
        lemma_pow10_increases(k as nat, 26);
        lemma_pow10_26();
    }
    r
}

/// The digit character for `d`.
pub fn digit_to_char(d: u8) -> (c: char)
    requires
        d < 10,
    ensures
        c == digit_char(d as nat),
        is_digit(c),
        digit_value(c) == d,
{
    (48u8 + d) as char
}

/// The shortest decimal writing of `n`.
pub fn decimal_chars(n: u64) -> (v: Vec<char>)
    ensures
        v@ == decimal_digits(n as nat),
    decreases n,
{
    if n < 10 {
        let mut v: Vec<char> = Vec::new();
        v.push(digit_to_char(n as u8));
        assert(v@ =~= seq![digit_char(n as nat)]);
        v
    } else {
        let mut v = decimal_chars(n / 10);
        v.push(digit_to_char((n % 10) as u8));
        v
    }
}

/// The last `width` digits of `n`, zero-padded.
pub fn fixed_chars(n: u64, width: u32) -> (v: Vec<char>)
    ensures
        v@ == fixed_digits(n as nat, width as nat),
    decreases width,
{
    if width == 0 {
        Vec::new()
    } else {
        let mut v = fixed_chars(n / 10, width - 1);
        v.push(digit_to_char((n % 10) as u8));
        v
    }
}

} // verus!
