use today_i_ran::parse::{
    lower_of, parse_distance, parse_duration, parse_run, resolve_unit, ParseError,
};
use today_i_ran::quantity::{Duration, Length, LengthUnit, TimeUnit};
use today_i_ran::run::Run;

fn seconds(n: u64) -> Duration {
    Duration { micros: n * 1_000_000 }
}

fn meters(n: u64) -> Length {
    Length { ticks: n * 10_000_000 }
}

#[test]
fn empty_time_is_rejected() {
    assert_eq!(parse_duration(""), Err(ParseError::Empty));
    assert_eq!(parse_duration("  \t "), Err(ParseError::Empty));
}

#[test]
fn time_without_numerals_is_rejected() {
    assert_eq!(parse_duration("abc"), Err(ParseError::Empty));
    assert_eq!(parse_duration("h min s"), Err(ParseError::Empty));
}

#[test]
fn time_with_a_bare_number_is_rejected() {
    assert_eq!(parse_duration("12"), Err(ParseError::Empty));
    assert_eq!(parse_duration("12 x"), Err(ParseError::Empty));
    assert_eq!(parse_duration("5m"), Err(ParseError::Empty));
    assert_eq!(parse_duration("x 5min"), Err(ParseError::Empty));
    assert_eq!(parse_duration("5 MIN"), Err(ParseError::Empty));
}

#[test]
fn time_of_three_parts() {
    assert_eq!(parse_duration("1h 5min 30s"), Ok(seconds(3930)));
}

#[test]
fn time_of_seconds_alone() {
    assert_eq!(parse_duration("45s"), Ok(seconds(45)));
    assert_eq!(parse_duration("45sec"), Ok(seconds(45)));
    assert_eq!(parse_duration("45 s"), Ok(seconds(45)));
}

#[test]
fn time_of_minutes_alone() {
    assert_eq!(parse_duration("90min"), Ok(seconds(5400)));
    assert_eq!(parse_duration("25min"), Ok(seconds(1500)));
}

#[test]
fn time_of_any_combination() {
    assert_eq!(parse_duration("2h"), Ok(seconds(7200)));
    assert_eq!(parse_duration("2h 30s"), Ok(seconds(7230)));
    assert_eq!(parse_duration("2h30min"), Ok(seconds(9000)));
    assert_eq!(parse_duration("  1 h  5 min  30 sec "), Ok(seconds(3930)));
    assert_eq!(parse_duration("5min 30s"), Ok(seconds(330)));
}

#[test]
fn time_with_fractions() {
    assert_eq!(parse_duration("1.5h"), Ok(seconds(5400)));
    assert_eq!(parse_duration("0.5min"), Ok(seconds(30)));
    assert_eq!(parse_duration("12.345s"), Ok(Duration { micros: 12_345_000 }));
    assert_eq!(parse_duration("1.s"), Ok(seconds(1)));
}

#[test]
fn time_drops_places_beyond_the_sixth() {
    assert_eq!(parse_duration("0.1234567s"), Ok(Duration { micros: 123_456 }));
    assert_eq!(parse_duration("0.0000019s"), Ok(Duration { micros: 1 }));
}

#[test]
fn time_ignores_what_follows_the_last_part() {
    assert_eq!(parse_duration("1h 30"), Ok(seconds(3600)));
    assert_eq!(parse_duration("5min and more"), Ok(seconds(300)));
    assert_eq!(parse_duration("30s 1h"), Ok(seconds(30)));
}

#[test]
fn time_of_zero_seconds_is_read() {
    assert_eq!(parse_duration("0s"), Ok(seconds(0)));
}

#[test]
fn time_beyond_the_range_is_a_bad_number() {
    assert_eq!(parse_duration("99999999999999999999h"), Err(ParseError::BadNumber));
    assert_eq!(parse_duration("18446744073709h"), Err(ParseError::BadNumber));
    assert_eq!(
        parse_duration("5000000000h 18446744073709s"),
        Err(ParseError::BadNumber)
    );
}

#[test]
fn time_equals_what_the_unit_gives() {
    assert_eq!(
        parse_duration("7min").ok(),
        Duration::new(7_000_000, TimeUnit::Minute)
    );
}

#[test]
fn distance_in_kilometers() {
    assert_eq!(parse_distance("10km"), Ok(meters(10_000)));
}

#[test]
fn distance_in_miles() {
    assert_eq!(parse_distance("5mi"), Ok(Length { ticks: 80_467_200_000 }));
    assert_eq!(parse_distance("5.2 mi"), Ok(Length { ticks: 83_685_888_000 }));
}

#[test]
fn distance_in_every_unit_and_spelling() {
    for word in ["m", "meter", "meters", "M", "Meters"] {
        assert_eq!(parse_distance(&format!("3 {}", word)), Ok(meters(3)));
    }
    for word in ["km", "kilometer", "kilometers", "KM", "Kilometer"] {
        assert_eq!(parse_distance(&format!("3{}", word)), Ok(meters(3000)));
    }
    for word in ["mi", "mile", "miles", "MILE"] {
        assert_eq!(
            parse_distance(&format!("1 {}", word)),
            Ok(Length { ticks: 16_093_440_000 })
        );
    }
    for word in ["yd", "yard", "yards", "Yd"] {
        assert_eq!(
            parse_distance(&format!("100{}", word)),
            Ok(Length { ticks: 914_400_000 })
        );
    }
    for word in ["ft", "foot", "feet", "FEET"] {
        assert_eq!(
            parse_distance(&format!("1 {}", word)),
            Ok(Length { ticks: 3_048_000 })
        );
    }
}

#[test]
fn distance_without_a_numeral_has_no_match() {
    assert_eq!(parse_distance(""), Err(ParseError::NoMatch));
    assert_eq!(parse_distance("km"), Err(ParseError::NoMatch));
    assert_eq!(parse_distance("ten miles"), Err(ParseError::NoMatch));
}

#[test]
fn distance_without_a_unit_is_refused() {
    assert_eq!(parse_distance("800"), Err(ParseError::BadUnit));
    assert_eq!(parse_distance("800 "), Err(ParseError::BadUnit));
}

#[test]
fn distance_with_an_unknown_unit_is_refused() {
    assert_eq!(parse_distance("10 parsecs"), Err(ParseError::BadUnit));
    assert_eq!(parse_distance("10 kms"), Err(ParseError::BadUnit));
    assert_eq!(parse_distance("10 k m"), Err(ParseError::BadUnit));
}

#[test]
fn distance_beyond_the_range_is_a_bad_number() {
    assert_eq!(
        parse_distance("99999999999999999999 m"),
        Err(ParseError::BadNumber)
    );
    assert_eq!(
        parse_distance("18446744073709.551616 m"),
        Err(ParseError::BadNumber)
    );
    assert_eq!(parse_distance("2000000000000 km"), Err(ParseError::BadNumber));
}

#[test]
fn bad_number_comes_before_bad_unit() {
    assert_eq!(
        parse_distance("99999999999999999999 parsecs"),
        Err(ParseError::BadNumber)
    );
    assert_eq!(
        parse_distance("2000000000000 parsecs"),
        Err(ParseError::BadUnit)
    );
}

#[test]
fn distance_starts_at_the_first_digit() {
    assert_eq!(parse_distance("about 10 km today"), Ok(meters(10_000)));
    assert_eq!(parse_distance(".5km"), Ok(meters(5000)));
    assert_eq!(parse_distance("5.km"), Ok(meters(5000)));
    assert_eq!(parse_distance("1.2.3km"), Err(ParseError::BadUnit));
}

#[test]
fn distance_with_a_fraction() {
    assert_eq!(parse_distance("42.195km"), Ok(meters(42_195)));
    assert_eq!(parse_distance("0.0000001 m"), Ok(Length { ticks: 0 }));
    assert_eq!(parse_distance("0.000001 m"), Ok(Length { ticks: 10 }));
    assert_eq!(parse_distance("000123.4500 m"), Ok(Length { ticks: 1_234_500_000 }));
}

#[test]
fn run_from_two_texts() {
    assert_eq!(
        parse_run("10km", "50min"),
        Ok(Run { distance: meters(10_000), time: seconds(3000) })
    );
}

#[test]
fn run_reports_the_distance_first() {
    assert_eq!(parse_run("x", ""), Err(ParseError::NoMatch));
    assert_eq!(parse_run("10", ""), Err(ParseError::BadUnit));
    assert_eq!(parse_run("10km", ""), Err(ParseError::Empty));
    assert_eq!(parse_run("10km", "fast"), Err(ParseError::Empty));
}

#[test]
fn length_unit_is_kept_by_the_parser() {
    assert_eq!(
        parse_distance("3 yards").ok(),
        Length::new(3_000_000, LengthUnit::Yard)
    );
}

#[test]
fn unit_names_in_any_case() {
    assert_eq!(resolve_unit("km"), Some(LengthUnit::Kilometer));
    assert_eq!(resolve_unit("KM"), Some(LengthUnit::Kilometer));
    assert_eq!(resolve_unit("Kilometers"), Some(LengthUnit::Kilometer));
    assert_eq!(resolve_unit("m"), Some(LengthUnit::Meter));
    assert_eq!(resolve_unit("mEtEr"), Some(LengthUnit::Meter));
    assert_eq!(resolve_unit("miles"), Some(LengthUnit::Mile));
    assert_eq!(resolve_unit("YARD"), Some(LengthUnit::Yard));
    assert_eq!(resolve_unit("Feet"), Some(LengthUnit::Foot));
    assert_eq!(resolve_unit("foot"), Some(LengthUnit::Foot));
}

#[test]
fn unit_names_that_are_none() {
    assert_eq!(resolve_unit(""), None);
    assert_eq!(resolve_unit("k"), None);
    assert_eq!(resolve_unit("kmh"), None);
    assert_eq!(resolve_unit(" km"), None);
    assert_eq!(resolve_unit("metre"), None);
    assert_eq!(resolve_unit("[m"), None);
    assert_eq!(resolve_unit("\u{212a}m"), None);
}

#[test]
fn lower_case_of_letters_alone() {
    assert_eq!(lower_of('A'), 'a');
    assert_eq!(lower_of('Z'), 'z');
    assert_eq!(lower_of('q'), 'q');
    assert_eq!(lower_of('@'), '@');
    assert_eq!(lower_of('['), '[');
    assert_eq!(lower_of('5'), '5');
    assert_eq!(lower_of('\u{c4}'), '\u{c4}');
}

#[test]
fn digits_of_other_scripts_are_no_digits() {
    assert_eq!(parse_distance("\u{0663} km"), Err(ParseError::NoMatch));
    assert_eq!(parse_duration("\u{0663}s"), Err(ParseError::Empty));
}

#[test]
fn white_space_is_ascii() {
    assert_eq!(parse_distance("10\t\n km"), Ok(meters(10_000)));
    assert_eq!(parse_distance("10\u{a0}km"), Err(ParseError::BadUnit));
    assert_eq!(parse_duration("\r\n5\u{b}min"), Ok(seconds(300)));
    assert_eq!(parse_duration("\u{a0}5s"), Err(ParseError::Empty));
}
