use nextjlc::drill::emit::coordinate_chars;
use nextjlc::drill::{parse_ad_coordinate, DrillUnit};

#[test]
fn inch_trailing_zero_two_places() {
    assert_eq!(parse_ad_coordinate("100", 2, 2, false, DrillUnit::Inch), 2_540_000);
}

#[test]
fn metric_leading_zero_splits_after_integer_places() {
    assert_eq!(parse_ad_coordinate("012345", 2, 4, true, DrillUnit::Metric), 123_450);
    assert_eq!(parse_ad_coordinate("-012345", 2, 4, true, DrillUnit::Metric), -123_450);
    assert_eq!(parse_ad_coordinate("12", 2, 4, true, DrillUnit::Metric), 1_200_000);
}

#[test]
fn decimal_point_is_read_directly() {
    assert_eq!(parse_ad_coordinate("1.5", 2, 4, true, DrillUnit::Metric), 150_000);
    assert_eq!(parse_ad_coordinate("-0.25", 2, 4, false, DrillUnit::Inch), -635_000);
}

#[test]
fn unreadable_token_is_zero() {
    assert_eq!(parse_ad_coordinate("1.2.3", 2, 4, true, DrillUnit::Metric), 0);
    assert_eq!(parse_ad_coordinate("12a", 2, 4, true, DrillUnit::Metric), 0);
    assert_eq!(parse_ad_coordinate("", 2, 4, true, DrillUnit::Metric), 0);
    assert_eq!(parse_ad_coordinate("-", 2, 4, false, DrillUnit::Metric), 0);
}

#[test]
fn lengths_are_rounded_to_the_nearest_step() {
    assert_eq!(parse_ad_coordinate("0.000004", 2, 4, true, DrillUnit::Metric), 0);
    assert_eq!(parse_ad_coordinate("0.000005", 2, 4, true, DrillUnit::Metric), 1);
    assert_eq!(parse_ad_coordinate("-0.000005", 2, 4, true, DrillUnit::Metric), -1);
    assert_eq!(parse_ad_coordinate("1", 2, 7, false, DrillUnit::Inch), 0);
    assert_eq!(parse_ad_coordinate("2", 2, 7, false, DrillUnit::Inch), 1);
    assert_eq!(parse_ad_coordinate("1", 2, 4, false, DrillUnit::Inch), 254);
}

#[test]
fn signs_are_stripped_from_fixed_tokens() {
    assert_eq!(parse_ad_coordinate("+15", 2, 1, false, DrillUnit::Metric), 150_000);
    assert_eq!(parse_ad_coordinate("--15", 2, 1, false, DrillUnit::Metric), -150_000);
    assert_eq!(parse_ad_coordinate("+-15", 2, 1, false, DrillUnit::Metric), 150_000);
    assert_eq!(parse_ad_coordinate("+1.5", 2, 1, false, DrillUnit::Metric), 150_000);
    assert_eq!(parse_ad_coordinate("--1.5", 2, 1, false, DrillUnit::Metric), 0);
    assert_eq!(parse_ad_coordinate(".5", 2, 1, false, DrillUnit::Metric), 50_000);
    assert_eq!(parse_ad_coordinate("5.", 2, 1, false, DrillUnit::Metric), 500_000);
    assert_eq!(parse_ad_coordinate(".", 2, 1, false, DrillUnit::Metric), 0);
}

#[test]
fn lengths_out_of_range_are_zero() {
    assert_eq!(parse_ad_coordinate("18446744073709551615", 2, 9, false, DrillUnit::Metric), 1_844_674_407_370_955);
    assert_eq!(parse_ad_coordinate("18446744073709551616", 2, 9, false, DrillUnit::Metric), 0);
    assert_eq!(parse_ad_coordinate("92233720368547.75807", 2, 4, true, DrillUnit::Metric), i64::MAX);
    assert_eq!(parse_ad_coordinate("-92233720368547.75807", 2, 4, true, DrillUnit::Metric), -i64::MAX);
    assert_eq!(parse_ad_coordinate("92233720368547.75808", 2, 4, true, DrillUnit::Metric), 0);
    assert_eq!(parse_ad_coordinate("1", 2, 4_000_000_000, false, DrillUnit::Metric), 0);
    assert_eq!(parse_ad_coordinate("5", 0, 0, true, DrillUnit::Metric), 50_000);
}

#[test]
fn written_coordinates_are_read_back() {
    for v in [0i64, 1, -1, 99_999, 100_000, -2_540_000, 123_456_789, i64::MAX, -i64::MAX] {
        let token: String = coordinate_chars(v).iter().collect();
        for lz in [true, false] {
            assert_eq!(parse_ad_coordinate(&token, 2, 4, lz, DrillUnit::Metric), v);
        }
    }
}

#[test]
fn fixed_tokens_of_a_coordinate_are_read_back() {
    for v in [0i64, 1, -1, 99_999, 100_000, -2_540_000, 123_456_789, 9_999_999] {
        let m = v.unsigned_abs();
        let sign = if v < 0 { "-" } else { "" };
        let leading = format!("{}{:04}{:05}", sign, m / 100_000, m % 100_000);
        assert_eq!(parse_ad_coordinate(&leading, 4, 4, true, DrillUnit::Metric), v);
        let trailing = format!("{}{}", sign, m);
        assert_eq!(parse_ad_coordinate(&trailing, 2, 5, false, DrillUnit::Metric), v);
        let finer = format!("{}{}00", sign, m);
        assert_eq!(parse_ad_coordinate(&finer, 2, 7, false, DrillUnit::Metric), v);
    }
    for thousandths in [0i64, 1, -1, 1000, -39_370] {
        let v = thousandths * 2_540;
        let m = thousandths.unsigned_abs();
        let sign = if v < 0 { "-" } else { "" };
        let trailing = format!("{}{}", sign, m);
        assert_eq!(parse_ad_coordinate(&trailing, 2, 3, false, DrillUnit::Inch), v);
        let leading = format!("{}{:02}{:03}", sign, m / 1000, m % 1000);
        assert_eq!(parse_ad_coordinate(&leading, 2, 4, true, DrillUnit::Inch), v);
    }
}

#[test]
fn whole_part_must_fit_the_integer_places() {
    assert_eq!(parse_ad_coordinate("123456789", 4, 4, true, DrillUnit::Metric), 123_456_789);
    assert_eq!(parse_ad_coordinate("123456789", 2, 4, true, DrillUnit::Metric), 1_234_568);
}

#[test]
fn coarse_notation_cannot_express_every_coordinate() {
    assert_eq!(parse_ad_coordinate("0", 2, 4, false, DrillUnit::Metric), 0);
    assert_eq!(parse_ad_coordinate("1", 2, 4, false, DrillUnit::Metric), 10);
}
