//! Reading back what the emitter writes: the decoder recovers every length
//! of the canonical dialect exactly.

use vstd::prelude::*;
use crate::drill::coordinate::{
    decode_coordinate, decode_diameter, implied_scale, magnitude, read_decimal, round_div,
    signed_length, steps, unit_tenths, Reading,
};
use crate::drill::emit::{coordinate_text, diameter_text, length_text};
use crate::drill::DrillUnit;
use crate::number::{
    decimal_digits, fixed_digits, lemma_decimal_digits, lemma_digits_value_concat,
    lemma_fixed_digits, lemma_pow10_increases, pow10, read_u64,
};
use crate::scan::{lemma_index_of_char_is, lemma_signs_end_is, signs_end};
use crate::text::{all_digits, digits_value, is_digit};

verus! {

/// A decimal written as whole digits, a point and fraction digits is read
/// as the number that all its digits write, scaled by the count of its
/// fraction digits.
pub proof fn lemma_read_decimal_parts(whole: Seq<char>, fraction: Seq<char>)
    requires
        all_digits(whole),
        all_digits(fraction),
    ensures
        read_decimal(whole + seq!['.'] + fraction) == match read_u64(whole + fraction) {
            Some(m) => Some(Reading { mantissa: m, scale: fraction.len() }),
            None => None,
        },
{
    let u = whole + seq!['.'] + fraction;
    let p = whole.len() as int;
    assert forall|k: int| 0 <= k < p implies #[trigger] u[k] != '.' by {
        assert(u[k] == whole[k]);
        assert(is_digit(whole[k]));
    }
    assert(u[p] == '.');
    lemma_index_of_char_is(u, '.', 0, p);
    assert(u.remove(p) =~= whole + fraction);
}

/// The magnitude of a length of the canonical dialect, read back.
pub proof fn lemma_length_text_magnitude(m: nat)
    requires
        m <= i64::MAX,
    ensures
        magnitude(read_decimal(length_text(false, m)), DrillUnit::Metric) == Some(m as u64),
{
    let q = m / 100_000;
    let r = m % 100_000;
    let whole = decimal_digits(q);
    let fraction = fixed_digits(r, 5);
    lemma_decimal_digits(q);
    lemma_fixed_digits(r, 5);
    assert(pow10(5) == 100_000) by {
        reveal_with_fuel(pow10, 6);
    }
    assert(length_text(false, m) =~= whole + seq!['.'] + fraction);
    lemma_read_decimal_parts(whole, fraction);
    lemma_digits_value_concat(whole, fraction);
    assert(digits_value(whole + fraction) == m) by {
        assert(q * 100_000 + r == m);
    }
    assert(all_digits(whole + fraction)) by {
        assert forall|i: int| 0 <= i < (whole + fraction).len() implies is_digit(
            #[trigger] (whole + fraction)[i],
        ) by {
            if i < whole.len() {
                assert((whole + fraction)[i] == whole[i]);
            } else {
                assert((whole + fraction)[i] == fraction[i - whole.len()]);
            }
        }
    }
    assert(steps(m, 5, DrillUnit::Metric) == m) by {
        assert(m * 10 * 10_000 == 100_000 * m);
        assert(round_div(100_000 * m, 100_000) == (2 * (100_000 * m) + 100_000) / 200_000);
        assert((200_000 * m + 100_000) / 200_000 == m);
    }
}

/// A coordinate written by the emitter and read back as millimetres is the
/// same coordinate, whatever notation and digit counts are declared: the
/// written form has a decimal point and is read directly.
///
/// The lowest `i64` is left out: its magnitude is above `i64::MAX`, and such
/// a token decodes to 0.
pub proof fn lemma_coordinate_round_trip(
    v: i64,
    integer_places: u32,
    decimal_places: u32,
    is_lz: bool,
)
    requires
        v > i64::MIN,
    ensures
        decode_coordinate(
            coordinate_text(v),
            integer_places,
            decimal_places,
            is_lz,
            DrillUnit::Metric,
        ) == v,
{
    let m: nat = if v < 0 {
        (-v) as nat
    } else {
        v as nat
    };
    let q = m / 100_000;
    let r = m % 100_000;
    let whole = decimal_digits(q);
    let fraction = fixed_digits(r, 5);
    let unsigned = length_text(false, m);
    let token = coordinate_text(v);
    lemma_decimal_digits(q);
    lemma_fixed_digits(r, 5);
    lemma_length_text_magnitude(m);
    assert(unsigned =~= whole + seq!['.'] + fraction);
    assert(is_digit(whole[0]));
    if v < 0 {
        assert(token =~= seq!['-'] + unsigned);
        assert(token[0] == '-');
        assert(token.skip(1) =~= unsigned);
        assert(token[whole.len() as int + 1] == '.');
    } else {
        assert(token =~= unsigned);
        assert(token[0] == whole[0]);
        assert(token[whole.len() as int] == '.');
    }
    assert(token.contains('.'));
}

/// A diameter written by the emitter and read back as millimetres is the
/// same diameter, as far as the decoder's range goes.
pub proof fn lemma_diameter_round_trip(d: u64)
    requires
        d <= i64::MAX,
    ensures
        decode_diameter(diameter_text(d), DrillUnit::Metric) == d,
{
    lemma_length_text_magnitude(d as nat);
}

/// The magnitude of a coordinate.
pub open spec fn magnitude_of(v: i64) -> nat {
    if v < 0 {
        (-v) as nat
    } else {
        v as nat
    }
}

/// The steps of 10⁻⁵ mm in one unit.
pub open spec fn steps_per_unit(unit: DrillUnit) -> nat {
    unit_tenths(unit) * 10_000
}

/// A length of `m` steps can be written in `unit` with `places` decimal
/// places and nothing left over.
pub open spec fn representable(m: nat, places: nat, unit: DrillUnit) -> bool {
    (m * pow10(places)) % steps_per_unit(unit) == 0
}

/// A length of `m` steps in `unit`, counted in units of the last of
/// `places` decimal places.
pub open spec fn place_count(m: nat, places: nat, unit: DrillUnit) -> nat {
    (m * pow10(places)) / steps_per_unit(unit)
}

/// A sign in front of digits: a minus sign for a negative coordinate,
/// nothing otherwise.
pub open spec fn with_sign(v: i64, digits: Seq<char>) -> Seq<char> {
    if v < 0 {
        seq!['-'] + digits
    } else {
        digits
    }
}

/// The token of a coordinate under trailing-zero notation: its count of
/// units of the last decimal place, leading zeros left out.
pub open spec fn trailing_zero_token(v: i64, decimal_places: u32, unit: DrillUnit) -> Seq<char> {
    with_sign(v, decimal_digits(place_count(magnitude_of(v), decimal_places as nat, unit)))
}

/// The token of a coordinate under leading-zero notation: its whole units
/// in `integer_places` digits, then `fraction_places` decimal places.
pub open spec fn leading_zero_token(
    v: i64,
    integer_places: u32,
    fraction_places: nat,
    unit: DrillUnit,
) -> Seq<char> {
    let count = place_count(magnitude_of(v), fraction_places, unit);
    with_sign(
        v,
        fixed_digits(count / pow10(fraction_places), integer_places as nat) + fixed_digits(
            count % pow10(fraction_places),
            fraction_places,
        ),
    )
}

/// A multiple of a positive number, divided by that number and rounded,
/// is the multiplier.
proof fn lemma_round_div_multiple(m: nat, p: nat)
    requires
        p > 0,
    ensures
        round_div(m * p, p) == m,
{
    let x = (2 * (m * p) + p) as int;
    let d = (2 * p) as int;
    assert(x == m * d + p) by (nonlinear_arith)
        requires
            x == 2 * (m * p) + p,
            d == 2 * p,
    ;
    vstd::arithmetic::div_mod::lemma_fundamental_div_mod_converse(x, d, m as int, p as int);
}

/// What a signed digit string decodes to under a fixed notation.
proof fn lemma_decode_signed_digits(
    v: i64,
    digits: Seq<char>,
    integer_places: u32,
    decimal_places: u32,
    is_lz: bool,
    unit: DrillUnit,
)
    requires
        all_digits(digits),
        digits.len() > 0,
    ensures
        decode_coordinate(with_sign(v, digits), integer_places, decimal_places, is_lz, unit)
            == signed_length(
            v < 0,
            magnitude(
                match read_u64(digits) {
                    Some(m) => Some(
                        Reading {
                            mantissa: m,
                            scale: implied_scale(
                                digits.len(),
                                integer_places,
                                decimal_places,
                                is_lz,
                            ),
                        },
                    ),
                    None => None,
                },
                unit,
            ),
        ),
{
    let token = with_sign(v, digits);
    assert(is_digit(digits[0]));
    assert forall|i: int| 0 <= i < token.len() implies #[trigger] token[i] != '.' by {
        if v < 0 {
            if i > 0 {
                assert(token[i] == digits[i - 1]);
                assert(is_digit(digits[i - 1]));
            }
        } else {
            assert(is_digit(digits[i]));
        }
    }
    assert(!token.contains('.'));
    if v < 0 {
        assert(token[1] == digits[0]);
        lemma_signs_end_is(token, 0, 1);
        assert(token.skip(1) =~= digits);
    } else {
        lemma_signs_end_is(token, 0, 0);
        assert(token.skip(0) =~= digits);
    }
}

/// A coordinate written as a trailing-zero token and decoded under the
/// same notation is the same coordinate, where the notation can express it:
/// the coordinate is representable with the declared decimal places, and
/// its count fits the decoder's range.
///
/// The lowest `i64` is left out, as everywhere.
pub proof fn lemma_trailing_zero_round_trip(
    v: i64,
    integer_places: u32,
    decimal_places: u32,
    unit: DrillUnit,
)
    requires
        v > i64::MIN,
        representable(magnitude_of(v), decimal_places as nat, unit),
        place_count(magnitude_of(v), decimal_places as nat, unit) <= u64::MAX,
    ensures
        decode_coordinate(
            trailing_zero_token(v, decimal_places, unit),
            integer_places,
            decimal_places,
            false,
            unit,
        ) == v,
{
    let m = magnitude_of(v);
    let p = pow10(decimal_places as nat);
    let c = steps_per_unit(unit);
    let count = place_count(m, decimal_places as nat, unit);
    let digits = decimal_digits(count);
    lemma_decimal_digits(count);
    lemma_pow10_increases(0, decimal_places as nat);
    lemma_decode_signed_digits(v, digits, integer_places, decimal_places, false, unit);
    assert(c > 0);
    vstd::arithmetic::div_mod::lemma_fundamental_div_mod((m * p) as int, c as int);
    assert(count * c == m * p) by (nonlinear_arith)
        requires
            m * p == c * count + 0,
    ;
    assert(count * unit_tenths(unit) * 10_000 == count * c) by (nonlinear_arith)
        requires
            c == unit_tenths(unit) * 10_000,
    ;
    lemma_round_div_multiple(m, p);
    assert(steps(count, decimal_places as nat, unit) == m);
}

/// A coordinate written as a leading-zero token and decoded under the same
/// notation is the same coordinate, where the notation can express it: the
/// coordinate is representable with the written decimal places, and its
/// whole units fit the declared integer places.
///
/// The lowest `i64` is left out, as everywhere.
pub proof fn lemma_leading_zero_round_trip(
    v: i64,
    integer_places: u32,
    decimal_places: u32,
    fraction_places: nat,
    unit: DrillUnit,
)
    requires
        v > i64::MIN,
        representable(magnitude_of(v), fraction_places, unit),
        place_count(magnitude_of(v), fraction_places, unit) <= u64::MAX,
        place_count(magnitude_of(v), fraction_places, unit) / pow10(fraction_places) < pow10(
            integer_places as nat,
        ),
    ensures
        decode_coordinate(
            leading_zero_token(v, integer_places, fraction_places, unit),
            integer_places,
            decimal_places,
            true,
            unit,
        ) == v,
{
    let m = magnitude_of(v);
    let p = pow10(fraction_places);
    let c = steps_per_unit(unit);
    let count = place_count(m, fraction_places, unit);
    let whole = fixed_digits(count / p, integer_places as nat);
    let fraction = fixed_digits(count % p, fraction_places);
    let digits = whole + fraction;
    lemma_fixed_digits(count / p, integer_places as nat);
    lemma_fixed_digits(count % p, fraction_places);
    lemma_pow10_increases(0, fraction_places);
    lemma_pow10_increases(0, integer_places as nat);
    lemma_digits_value_concat(whole, fraction);
    assert(all_digits(digits)) by {
        assert forall|i: int| 0 <= i < digits.len() implies is_digit(#[trigger] digits[i]) by {
            if i < whole.len() {
                assert(digits[i] == whole[i]);
            } else {
                assert(digits[i] == fraction[i - whole.len()]);
            }
        }
    }
    assert(c > 0);
    vstd::arithmetic::div_mod::lemma_fundamental_div_mod((m * p) as int, c as int);
    assert(count * c == m * p) by (nonlinear_arith)
        requires
            m * p == c * count + 0,
    ;
    vstd::arithmetic::div_mod::lemma_small_mod(count / p, pow10(integer_places as nat));
    vstd::arithmetic::div_mod::lemma_small_mod(count % p, p);
    vstd::arithmetic::div_mod::lemma_fundamental_div_mod(count as int, p as int);
    assert(digits_value(digits) == count) by (nonlinear_arith)
        requires
            digits_value(digits) == (count / p) * p + count % p,
            count == p * (count / p) + count % p,
    ;
    if digits.len() == 0 {
        assert(p == 1);
        assert(pow10(integer_places as nat) == 1);
        assert(count / 1 == count);
        assert(count == 0);
        assert(count * c == 0) by (nonlinear_arith)
            requires
                count == 0,
        ;
        assert(m == 0) by (nonlinear_arith)
            requires
                m * p == 0,
                p == 1,
        ;
        assert(leading_zero_token(v, integer_places, fraction_places, unit) =~= Seq::<char>::empty(
        ));
        assert(!Seq::<char>::empty().contains('.'));
        assert(Seq::<char>::empty().skip(signs_end(Seq::<char>::empty(), 0))
            =~= Seq::<char>::empty());
    } else {
        lemma_decode_signed_digits(v, digits, integer_places, decimal_places, true, unit);
        assert(implied_scale(digits.len(), integer_places, decimal_places, true)
            == fraction_places);
        assert(count * unit_tenths(unit) * 10_000 == count * c) by (nonlinear_arith)
            requires
                c == unit_tenths(unit) * 10_000,
        ;
        lemma_round_div_multiple(m, p);
        assert(steps(count, fraction_places, unit) == m);
    }
}

} // verus!
