use today_i_ran::quantity::{
    scale, ArithmeticError, Duration, Length, LengthUnit, Ratio, Speed, SpeedUnit, TimeUnit,
};

const LENGTH_UNITS: [LengthUnit; 5] = [
    LengthUnit::Meter,
    LengthUnit::Kilometer,
    LengthUnit::Mile,
    LengthUnit::Yard,
    LengthUnit::Foot,
];

#[test]
fn scale_multiplies_then_divides() {
    assert_eq!(scale(7, 3, 2), Ok(10));
    assert_eq!(scale(u64::MAX, u64::MAX, u64::MAX), Ok(u64::MAX));
    assert_eq!(scale(0, 5, 9), Ok(0));
}

#[test]
fn scale_reports_a_zero_divisor() {
    assert_eq!(scale(7, 3, 0), Err(ArithmeticError::DivisionByZero));
    assert_eq!(scale(0, 0, 0), Err(ArithmeticError::DivisionByZero));
}

#[test]
fn scale_reports_overflow() {
    assert_eq!(scale(u64::MAX, 2, 1), Err(ArithmeticError::Overflow));
    assert_eq!(scale(u64::MAX, 2, 2), Ok(u64::MAX));
}

#[test]
fn unit_factors() {
    assert_eq!(Length::new(1_000_000, LengthUnit::Meter), Some(Length { ticks: 10_000_000 }));
    assert_eq!(
        Length::new(1_000_000, LengthUnit::Kilometer),
        Some(Length { ticks: 10_000_000_000 })
    );
    assert_eq!(
        Length::new(1_000_000, LengthUnit::Mile),
        Some(Length { ticks: 16_093_440_000 })
    );
    assert_eq!(Length::new(1_000_000, LengthUnit::Yard), Some(Length { ticks: 9_144_000 }));
    assert_eq!(Length::new(1_000_000, LengthUnit::Foot), Some(Length { ticks: 3_048_000 }));
    assert_eq!(
        Duration::new(1_000_000, TimeUnit::Hour),
        Some(Duration { micros: 3_600_000_000 })
    );
    assert_eq!(
        Duration::new(1_000_000, TimeUnit::Minute),
        Some(Duration { micros: 60_000_000 })
    );
    assert_eq!(
        Duration::new(1_000_000, TimeUnit::Second),
        Some(Duration { micros: 1_000_000 })
    );
    assert_eq!(
        Speed::new(1_000_000, SpeedUnit::KilometerPerHour),
        Some(Speed { mm_per_hour: 1_000_000 })
    );
    assert_eq!(
        Speed::new(1_000_000, SpeedUnit::MilePerHour),
        Some(Speed { mm_per_hour: 1_609_344 })
    );
}

#[test]
fn abbreviations() {
    assert_eq!(LengthUnit::Meter.abbreviation(), "m");
    assert_eq!(LengthUnit::Kilometer.abbreviation(), "km");
    assert_eq!(LengthUnit::Mile.abbreviation(), "mi");
    assert_eq!(LengthUnit::Yard.abbreviation(), "yd");
    assert_eq!(LengthUnit::Foot.abbreviation(), "ft");
    assert_eq!(SpeedUnit::KilometerPerHour.abbreviation(), "km/h");
    assert_eq!(SpeedUnit::MilePerHour.abbreviation(), "mi/h");
}

#[test]
fn conversion_between_units() {
    let marathon = Length::new(42_195_000, LengthUnit::Kilometer).unwrap();
    assert_eq!(marathon.get(LengthUnit::Meter), 42_195_000_000);
    assert_eq!(marathon.get(LengthUnit::Mile), 26_218_757);
    let mile = Length::new(1_000_000, LengthUnit::Mile).unwrap();
    assert_eq!(mile.get(LengthUnit::Yard), 1_760_000_000);
    assert_eq!(mile.get(LengthUnit::Foot), 5_280_000_000);
    let d = Duration::new(90_000_000, TimeUnit::Minute).unwrap();
    assert_eq!(d.get(TimeUnit::Hour), 1_500_000);
    assert_eq!(d.get(TimeUnit::Second), 5_400_000_000);
    let v = Speed::new(16_093_440, SpeedUnit::KilometerPerHour).unwrap();
    assert_eq!(v.get(SpeedUnit::MilePerHour), 10_000_000);
}

#[test]
fn there_and_back_in_every_unit_of_length() {
    for unit in LENGTH_UNITS {
        for value in [0u64, 1_000, 5_000_000, 42_195_000, 123_456_789_000] {
            assert_eq!(Length::new(value, unit).unwrap().get(unit), value);
        }
    }
}

#[test]
fn there_and_back_loses_at_most_a_millionth() {
    for unit in LENGTH_UNITS {
        for value in [1u64, 7, 999_999, 1_234_567, 98_765_432_101] {
            let back = Length::new(value, unit).unwrap().get(unit);
            assert!(back <= value && value - back <= 1);
        }
    }
    assert_eq!(Length::new(1, LengthUnit::Foot).unwrap().get(LengthUnit::Foot), 0);
}

#[test]
fn there_and_back_in_every_unit_of_time() {
    for unit in [TimeUnit::Hour, TimeUnit::Minute, TimeUnit::Second] {
        for value in [0u64, 1, 1_000, 2_500_000, 45_000_000] {
            assert_eq!(Duration::new(value, unit).unwrap().get(unit), value);
        }
    }
}

#[test]
fn quantity_beyond_the_range() {
    assert_eq!(Length::new(u64::MAX, LengthUnit::Meter), None);
    assert_eq!(Duration::new(u64::MAX, TimeUnit::Hour), None);
    assert_eq!(Speed::new(u64::MAX, SpeedUnit::MilePerHour), None);
    assert_eq!(
        Duration::new(u64::MAX, TimeUnit::Second),
        Some(Duration { micros: u64::MAX })
    );
}

#[test]
fn sums_and_differences() {
    let a = Length { ticks: 30 };
    let b = Length { ticks: 12 };
    assert_eq!(a.checked_add(b), Some(Length { ticks: 42 }));
    assert_eq!(a.checked_sub(b), Some(Length { ticks: 18 }));
    assert_eq!(b.checked_sub(a), None);
    assert_eq!(Length { ticks: u64::MAX }.checked_add(b), None);
    let s = Duration { micros: 30 };
    let t = Duration { micros: 12 };
    assert_eq!(s.checked_add(t), Some(Duration { micros: 42 }));
    assert_eq!(s.checked_sub(t), Some(Duration { micros: 18 }));
    assert_eq!(t.checked_sub(s), None);
    assert_eq!(Duration { micros: u64::MAX }.checked_add(t), None);
    let v = Speed { mm_per_hour: 30 };
    let w = Speed { mm_per_hour: 12 };
    assert_eq!(v.checked_add(w), Some(Speed { mm_per_hour: 42 }));
    assert_eq!(v.checked_sub(w), Some(Speed { mm_per_hour: 18 }));
    assert_eq!(w.checked_sub(v), None);
    assert_eq!(Speed { mm_per_hour: u64::MAX }.checked_add(w), None);
}

#[test]
fn length_by_duration_is_a_speed() {
    let ten_km = Length::new(10_000_000, LengthUnit::Kilometer).unwrap();
    let hour = Duration::new(1_000_000, TimeUnit::Hour).unwrap();
    assert_eq!(ten_km.per(hour), Ok(Speed { mm_per_hour: 10_000_000 }));
    assert_eq!(
        ten_km.per(Duration { micros: 0 }),
        Err(ArithmeticError::DivisionByZero)
    );
    assert_eq!(
        Length { ticks: u64::MAX }.per(Duration { micros: 1 }),
        Err(ArithmeticError::Overflow)
    );
}

#[test]
fn quantity_by_its_own_kind_is_a_ratio() {
    let a = Length { ticks: 623 };
    let b = Length { ticks: 1000 };
    assert_eq!(a.ratio_to(b), Ok(Ratio { millionths: 623_000 }));
    assert_eq!(a.ratio_to(Length { ticks: 0 }), Err(ArithmeticError::DivisionByZero));
    assert_eq!(
        Length { ticks: u64::MAX }.ratio_to(Length { ticks: 1 }),
        Err(ArithmeticError::Overflow)
    );
    let v = Speed { mm_per_hour: 12_000_000 };
    let w = Speed { mm_per_hour: 24_000_000 };
    assert_eq!(v.ratio_to(w), Ok(Ratio { millionths: 500_000 }));
    assert_eq!(w.ratio_to(v), Ok(Ratio { millionths: 2_000_000 }));
}
