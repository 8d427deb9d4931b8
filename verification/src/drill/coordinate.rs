//! The coordinate decoder: from a numeric token of a drill file to a length
//! in steps of 10⁻⁵ mm.

use vstd::prelude::*;
use crate::drill::DrillUnit;
use crate::number::{
    lemma_pow10_26, lemma_pow10_increases, parse_u64, pow10, pow10_u128, read_u64,
};
use crate::scan::{
    copy_range, find_char, index_of_char, lemma_index_of_char, signs_end, skip_signs,
};
use crate::text::to_chars;

verus! {

/// Tenths of a millimetre in one unit.
pub open spec fn unit_tenths(unit: DrillUnit) -> nat {
    match unit {
        DrillUnit::Inch => 254,
        DrillUnit::Metric => 10,
    }
}

/// `num / den`, rounded to the nearest whole number, halves upwards.
pub open spec fn round_div(num: nat, den: nat) -> nat {
    (2 * num + den) / (2 * den)
}

/// The length `mantissa / 10^scale` of `unit`, in steps of 10⁻⁵ mm, rounded
/// to the nearest step.
pub open spec fn steps(mantissa: nat, scale: nat, unit: DrillUnit) -> nat {
    round_div(mantissa * unit_tenths(unit) * 10_000, pow10(scale))
}

/// An unsigned decimal number as it was written: `mantissa / 10^scale`.
pub struct Reading {
    pub mantissa: u64,
    pub scale: nat,
}

/// Reads an unsigned decimal: digits with at most one point among them and
/// at least one digit. The digits without the point are the mantissa; those
/// after the point count the scale. `None` for any other text, and where
/// the mantissa is above `u64::MAX`.
pub open spec fn read_decimal(s: Seq<char>) -> Option<Reading> {
    let p = index_of_char(s, '.', 0);
    if p == s.len() {
        match read_u64(s) {
            Some(m) => Some(Reading { mantissa: m, scale: 0 }),
            None => None,
        }
    } else {
        match read_u64(s.remove(p)) {
            Some(m) => Some(Reading { mantissa: m, scale: (s.len() - 1 - p) as nat }),
            None => None,
        }
    }
}

/// The magnitude of a reading in steps, or `None` where it is above
/// `i64::MAX`.
pub open spec fn magnitude(r: Option<Reading>, unit: DrillUnit) -> Option<u64> {
    match r {
        Some(r) => if steps(r.mantissa as nat, r.scale, unit) <= i64::MAX {
            Some(steps(r.mantissa as nat, r.scale, unit) as u64)
        } else {
            None
        },
        None => None,
    }
}

/// A magnitude with its sign; 0 where there is no magnitude.
pub open spec fn signed_length(negative: bool, m: Option<u64>) -> i64 {
    match m {
        Some(m) => if negative {
            (0 - m) as i64
        } else {
            m as i64
        },
        None => 0,
    }
}

/// What a token with a decimal point, or a plain decimal, decodes to: an
/// optional single sign, then an unsigned decimal. Any other token
/// decodes to 0.
pub open spec fn decode_decimal(token: Seq<char>, unit: DrillUnit) -> i64 {
    if token.len() > 0 && (token[0] == '-' || token[0] == '+') {
        signed_length(token[0] == '-', magnitude(read_decimal(token.skip(1)), unit))
    } else {
        signed_length(false, magnitude(read_decimal(token), unit))
    }
}

/// What an unsigned decimal token decodes to, for a tool diameter.
pub open spec fn decode_diameter(token: Seq<char>, unit: DrillUnit) -> u64 {
    match magnitude(read_decimal(token), unit) {
        Some(m) => m,
        None => 0,
    }
}

/// How many decimal places a token without a point has, once its signs are
/// stripped and `digits` characters are left: under leading-zero notation
/// what follows the integer places, under trailing-zero notation the
/// declared count.
pub open spec fn implied_scale(
    digits: nat,
    integer_places: u32,
    decimal_places: u32,
    is_lz: bool,
) -> nat {
    if is_lz {
        if digits > integer_places {
            (digits - integer_places) as nat
        } else {
            0
        }
    } else {
        decimal_places as nat
    }
}

/// What a token without a decimal point decodes to. The leading signs are
/// stripped; the token is negative when it begins with a minus sign. What is
/// left must be a digit string, which is read as a whole number and scaled
/// by the implied decimal places. Any other token decodes to 0.
pub open spec fn decode_fixed(
    token: Seq<char>,
    integer_places: u32,
    decimal_places: u32,
    is_lz: bool,
    unit: DrillUnit,
) -> i64 {
    let body = token.skip(signs_end(token, 0));
    let reading = match read_u64(body) {
        Some(m) => Some(
            Reading {
                mantissa: m,
                scale: implied_scale(body.len(), integer_places, decimal_places, is_lz),
            },
        ),
        None => None,
    };
    signed_length(token.len() > 0 && token[0] == '-', magnitude(reading, unit))
}

/// What a coordinate token decodes to, in steps of 10⁻⁵ mm.
pub open spec fn decode_coordinate(
    token: Seq<char>,
    integer_places: u32,
    decimal_places: u32,
    is_lz: bool,
    unit: DrillUnit,
) -> i64 {
    if token.contains('.') {
        decode_decimal(token, unit)
    } else {
        decode_fixed(token, integer_places, decimal_places, is_lz, unit)
    }
}

/// The magnitude of `mantissa / 10^scale` in steps.
pub fn to_steps(mantissa: u64, scale: u64, unit: DrillUnit) -> (r: Option<u64>)
    ensures
        r == magnitude(Some(Reading { mantissa, scale: scale as nat }), unit),
{
    let tenths: u128 = match unit {
        DrillUnit::Inch => 254,
        DrillUnit::Metric => 10,
    };
    let num: u128 = (mantissa as u128) * tenths * 10_000;
    assert(num == mantissa as nat * unit_tenths(unit) * 10_000);
    if scale > 26 {
        proof {
            lemma_pow10_increases(26, scale as nat);
            lemma_pow10_26();
            let den = pow10(scale as nat) as int;
            let top = 2 * (num as int) + den;
            assert(top < 2 * den);
            assert(top / (2 * den) == 0) by (nonlinear_arith)
                requires
                    0 <= top < 2 * den,
            ;
        }
        return Some(0);
    }
    let den: u128 = pow10_u128(scale as u32);
    let q: u128 = (2 * num + den) / (2 * den);
    if q > 0x7fff_ffff_ffff_ffff {
        None
    } else {
        Some(q as u64)
    }
}

/// Reads an unsigned decimal into its mantissa and scale.
pub fn parse_decimal(s: &[char]) -> (r: Option<(u64, u64)>)
    ensures
        match read_decimal(s@) {
            Some(d) => r == Some((d.mantissa, d.scale as u64)) && d.scale <= u64::MAX,
            None => r.is_none(),
        },
{
    let p = find_char(s, '.', 0);
    if p == s.len() {
        match parse_u64(s) {
            Some(m) => Some((m, 0)),
            None => None,
        }
    } else {
        let mut digits = copy_range(s, 0, p);
        let mut rest = copy_range(s, p + 1, s.len());
        digits.append(&mut rest);
        assert(digits@ =~= s@.remove(p as int));
        match parse_u64(digits.as_slice()) {
            Some(m) => Some((m, (s.len() - 1 - p) as u64)),
            None => None,
        }
    }
}

/// The magnitude an unsigned decimal token stands for.
fn decimal_magnitude(s: &[char], unit: DrillUnit) -> (r: Option<u64>)
    ensures
        r == magnitude(read_decimal(s@), unit),
{
    match parse_decimal(s) {
        Some((m, k)) => to_steps(m, k, unit),
        None => None,
    }
}

/// Applies a sign to a magnitude.
fn with_sign(negative: bool, m: Option<u64>) -> (r: i64)
    requires
        m matches Some(v) ==> v <= i64::MAX,
    ensures
        r == signed_length(negative, m),
{
    match m {
        Some(v) => if negative {
            0 - (v as i64)
        } else {
            v as i64
        },
        None => 0,
    }
}

/// Decodes a decimal token: an optional sign and an unsigned decimal.
pub fn decimal_length(token: &[char], unit: DrillUnit) -> (r: i64)
    ensures
        r == decode_decimal(token@, unit),
{
    if token.len() > 0 && (token[0] == '-' || token[0] == '+') {
        let body = copy_range(token, 1, token.len());
        assert(body@ == token@.skip(1));
        with_sign(token[0] == '-', decimal_magnitude(body.as_slice(), unit))
    } else {
        with_sign(false, decimal_magnitude(token, unit))
    }
}

/// Decodes the diameter token of a tool declaration.
pub fn diameter_length(token: &[char], unit: DrillUnit) -> (r: u64)
    ensures
        r == decode_diameter(token@, unit),
{
    match decimal_magnitude(token, unit) {
        Some(m) => m,
        None => 0,
    }
}

/// Decodes a token without a decimal point.
pub fn fixed_length(
    token: &[char],
    integer_places: u32,
    decimal_places: u32,
    is_lz: bool,
    unit: DrillUnit,
) -> (r: i64)
    ensures
        r == decode_fixed(token@, integer_places, decimal_places, is_lz, unit),
{
    let start = skip_signs(token);
    let body = copy_range(token, start, token.len());
    assert(body@ == token@.skip(start as int));
    let negative = token.len() > 0 && token[0] == '-';
    let m = match parse_u64(body.as_slice()) {
        Some(m) => {
            let scale: u64 = if is_lz {
                if body.len() as u64 > integer_places as u64 {
                    body.len() as u64 - integer_places as u64
                } else {
                    0
                }
            } else {
                decimal_places as u64
            };
            to_steps(m, scale, unit)
        },
        None => None,
    };
    with_sign(negative, m)
}

/// Whether `s` holds the character `c`.
pub fn has_char(s: &[char], c: char) -> (b: bool)
    ensures
        b == s@.contains(c),
{
    let at = find_char(s, c, 0);
    proof {
        lemma_index_of_char(s@, c, 0);
    }
    at < s.len()
}

/// Decodes a coordinate token of a drill file into steps of 10⁻⁵ mm.
///
/// A token with a decimal point is read as a decimal number. One without is
/// read by the declared notation: `integer_places` digits before the implied
/// point under leading-zero notation, `decimal_places` digits after it under
/// trailing-zero notation. Inches are converted to millimetres. A token that
/// cannot be read, or whose length is out of range, decodes to 0.
pub fn parse_ad_coordinate(
    coord: &str,
    integer_places: u32,
    decimal_places: u32,
    is_lz: bool,
    unit: DrillUnit,
) -> (r: i64)
    ensures
        r == decode_coordinate(coord@, integer_places, decimal_places, is_lz, unit),
{
    let token = to_chars(coord);
    decode_token(token.as_slice(), integer_places, decimal_places, is_lz, unit)
}

/// As [`parse_ad_coordinate`], on a token that is already split into
/// characters.
pub fn decode_token(
    token: &[char],
    integer_places: u32,
    decimal_places: u32,
    is_lz: bool,
    unit: DrillUnit,
) -> (r: i64)
    ensures
        r == decode_coordinate(token@, integer_places, decimal_places, is_lz, unit),
{
    if has_char(token, '.') {
        decimal_length(token, unit)
    } else {
        fixed_length(token, integer_places, decimal_places, is_lz, unit)
    }
}

} // verus!
