//! Lengths, durations, speeds and ratios as whole numbers of a base unit.
//!
//! A length counts tenths of a micrometre, a duration microseconds, a speed
//! millimetres per hour and a ratio millionths. Every supported unit is a
//! whole number of base units, and at least a million of them, so a value
//! given in millionths of a unit converts by one multiplication and one
//! division that rounds towards zero.

use vstd::prelude::*;

verus! {

/// How many millionths make one: values in a unit are given and returned in
/// millionths of that unit.
pub const MICRO: u64 = 1_000_000;

/// Why a derived quantity could not be computed.
#[derive(Clone, Copy, Debug, PartialEq, Eq, Structural)]
pub enum ArithmeticError {
    /// The divisor is zero.
    DivisionByZero,
    /// The result does not fit in 64 bits.
    Overflow,
}

/// `a * b / c`, rounded towards zero, where it is defined and fits in 64 bits.
pub open spec fn scaled(a: nat, b: nat, c: nat) -> Result<u64, ArithmeticError> {
    if c == 0 {
        Err(ArithmeticError::DivisionByZero)
    } else if a * b / c > u64::MAX {
        Err(ArithmeticError::Overflow)
    } else {
        Ok((a * b / c) as u64)
    }
}

/// Computes `a * b / c` without losing the high bits of the product.
pub fn scale(a: u64, b: u64, c: u64) -> (r: Result<u64, ArithmeticError>)
    ensures
        r == scaled(a as nat, b as nat, c as nat),
{
    if c == 0 {
        return Err(ArithmeticError::DivisionByZero);
    }
    assert(a * b <= 0xffff_ffff_ffff_ffff * 0xffff_ffff_ffff_ffff) by (nonlinear_arith)
        requires
            a <= 0xffff_ffff_ffff_ffff,
            b <= 0xffff_ffff_ffff_ffff,
    ;
    let q: u128 = (a as u128) * (b as u128) / (c as u128);
    if q > 0xffff_ffff_ffff_ffff {
        Err(ArithmeticError::Overflow)
    } else {
        Ok(q as u64)
    }
}

/// `base` base units in millionths of a unit of `per_unit` base units,
/// rounded towards zero: no more than `base`, as a unit is at least a
/// million base units.
pub(crate) fn measure_in(base: u64, per_unit: u64) -> (r: u64)
    requires
        per_unit >= 1_000_000,
    ensures
        r == base as nat * 1_000_000 / (per_unit as nat),
{
    assert(base as nat * 1_000_000 / (per_unit as nat) <= base) by (nonlinear_arith)
        requires
            per_unit >= 1_000_000,
    ;
    let q: u128 = (base as u128) * 1_000_000 / (per_unit as u128);
    q as u64
}

/// A unit of length.
#[derive(Clone, Copy, Debug, PartialEq, Eq, Structural)]
pub enum LengthUnit {
    Meter,
    Kilometer,
    Mile,
    Yard,
    Foot,
}

impl LengthUnit {
    /// Tenths of a micrometre in one unit: a mile is 1609.344 m, a yard
    /// 0.9144 m, a foot 0.3048 m.
    pub open spec fn ticks(self) -> nat {
        match self {
            LengthUnit::Meter => 10_000_000,
            LengthUnit::Kilometer => 10_000_000_000,
            LengthUnit::Mile => 16_093_440_000,
            LengthUnit::Yard => 9_144_000,
            LengthUnit::Foot => 3_048_000,
        }
    }

    /// Tenths of a micrometre in one unit.
    pub fn ticks_per_unit(self) -> (r: u64)
        ensures
            r == self.ticks(),
    {
        match self {
            LengthUnit::Meter => 10_000_000,
            LengthUnit::Kilometer => 10_000_000_000,
            LengthUnit::Mile => 16_093_440_000,
            LengthUnit::Yard => 9_144_000,
            LengthUnit::Foot => 3_048_000,
        }
    }

    /// The unit's abbreviation.
    pub open spec fn symbol(self) -> Seq<char> {
        match self {
            LengthUnit::Meter => "m"@,
            LengthUnit::Kilometer => "km"@,
            LengthUnit::Mile => "mi"@,
            LengthUnit::Yard => "yd"@,
            LengthUnit::Foot => "ft"@,
        }
    }

    /// The unit's abbreviation.
    pub fn abbreviation(self) -> (r: &'static str)
        ensures
            r@ == self.symbol(),
    {
        match self {
            LengthUnit::Meter => "m",
            LengthUnit::Kilometer => "km",
            LengthUnit::Mile => "mi",
            LengthUnit::Yard => "yd",
            LengthUnit::Foot => "ft",
        }
    }
}

/// A unit of time.
#[derive(Clone, Copy, Debug, PartialEq, Eq, Structural)]
pub enum TimeUnit {
    Hour,
    Minute,
    Second,
}

impl TimeUnit {
    /// Microseconds in one unit.
    pub open spec fn micros(self) -> nat {
        match self {
            TimeUnit::Hour => 3_600_000_000,
            TimeUnit::Minute => 60_000_000,
            TimeUnit::Second => 1_000_000,
        }
    }

    /// Microseconds in one unit.
    pub fn micros_per_unit(self) -> (r: u64)
        ensures
            r == self.micros(),
    {
        match self {
            TimeUnit::Hour => 3_600_000_000,
            TimeUnit::Minute => 60_000_000,
            TimeUnit::Second => 1_000_000,
        }
    }
}

/// A unit of speed.
#[derive(Clone, Copy, Debug, PartialEq, Eq, Structural)]
pub enum SpeedUnit {
    KilometerPerHour,
    MilePerHour,
}

impl SpeedUnit {
    /// Millimetres per hour in one unit.
    pub open spec fn mm_per_hour(self) -> nat {
        match self {
            SpeedUnit::KilometerPerHour => 1_000_000,
            SpeedUnit::MilePerHour => 1_609_344,
        }
    }

    /// Millimetres per hour in one unit.
    pub fn mm_per_hour_per_unit(self) -> (r: u64)
        ensures
            r == self.mm_per_hour(),
    {
        match self {
            SpeedUnit::KilometerPerHour => 1_000_000,
            SpeedUnit::MilePerHour => 1_609_344,
        }
    }

    /// The unit's abbreviation.
    pub open spec fn symbol(self) -> Seq<char> {
        match self {
            SpeedUnit::KilometerPerHour => "km/h"@,
            SpeedUnit::MilePerHour => "mi/h"@,
        }
    }

    /// The unit's abbreviation.
    pub fn abbreviation(self) -> (r: &'static str)
        ensures
            r@ == self.symbol(),
    {
        match self {
            SpeedUnit::KilometerPerHour => "km/h",
            SpeedUnit::MilePerHour => "mi/h",
        }
    }
}

/// A length: `ticks` tenths of a micrometre.
#[derive(Clone, Copy, Debug, PartialEq, Eq, Structural)]
pub struct Length {
    pub ticks: u64,
}

/// A duration: `micros` microseconds.
#[derive(Clone, Copy, Debug, PartialEq, Eq, Structural)]
pub struct Duration {
    pub micros: u64,
}

/// A speed: `mm_per_hour` millimetres per hour.
#[derive(Clone, Copy, Debug, PartialEq, Eq, Structural)]
pub struct Speed {
    pub mm_per_hour: u64,
}

/// A number without dimension: `millionths` millionths.
#[derive(Clone, Copy, Debug, PartialEq, Eq, Structural)]
pub struct Ratio {
    pub millionths: u64,
}

impl Length {
    /// The length of `value` millionths of `unit`, rounded down to a whole
    /// tick; `None` where that is beyond 64 bits.
    pub open spec fn of(value: nat, unit: LengthUnit) -> Option<Length> {
        match scaled(value, unit.ticks(), MICRO as nat) {
            Ok(t) => Some(Length { ticks: t }),
            Err(_) => None,
        }
    }

    /// The length in millionths of `unit`, rounded down.
    pub open spec fn measure(self, unit: LengthUnit) -> nat {
        self.ticks as nat * MICRO as nat / unit.ticks()
    }

    /// The length of `value` millionths of `unit`.
    pub fn new(value: u64, unit: LengthUnit) -> (r: Option<Length>)
        ensures
            r == Length::of(value as nat, unit),
    {
        match scale(value, unit.ticks_per_unit(), MICRO) {
            Ok(t) => Some(Length { ticks: t }),
            Err(_) => None,
        }
    }

    /// The length in millionths of `unit`.
    pub fn get(self, unit: LengthUnit) -> (r: u64)
        ensures
            r == self.measure(unit),
    {
        measure_in(self.ticks, unit.ticks_per_unit())
    }

    /// The sum of two lengths, where it fits in 64 bits.
    pub fn checked_add(self, other: Length) -> (r: Option<Length>)
        ensures
            r == (if self.ticks + other.ticks <= u64::MAX {
                Some(Length { ticks: (self.ticks + other.ticks) as u64 })
            } else {
                None
            }),
    {
        if self.ticks <= u64::MAX - other.ticks {
            Some(Length { ticks: self.ticks + other.ticks })
        } else {
            None
        }
    }

    /// The difference of two lengths, where the second is no longer than the first.
    pub fn checked_sub(self, other: Length) -> (r: Option<Length>)
        ensures
            r == (if other.ticks <= self.ticks {
                Some(Length { ticks: (self.ticks - other.ticks) as u64 })
            } else {
                None
            }),
    {
        if other.ticks <= self.ticks {
            Some(Length { ticks: self.ticks - other.ticks })
        } else {
            None
        }
    }

    /// The speed that covers `self` in `time`, in millimetres per hour: a
    /// tick per microsecond is 360 000 mm/h.
    pub open spec fn speed_over(self, time: Duration) -> Result<Speed, ArithmeticError> {
        match scaled(self.ticks as nat, 360_000, time.micros as nat) {
            Ok(v) => Ok(Speed { mm_per_hour: v }),
            Err(e) => Err(e),
        }
    }

    /// Length by duration: the speed, rounded down to a whole millimetre per hour.
    pub fn per(self, time: Duration) -> (r: Result<Speed, ArithmeticError>)
        ensures
            r == self.speed_over(time),
    {
        match scale(self.ticks, 360_000, time.micros) {
            Ok(v) => Ok(Speed { mm_per_hour: v }),
            Err(e) => Err(e),
        }
    }

    /// The ratio of two lengths in millionths, rounded down.
    pub open spec fn ratio_over(self, other: Length) -> Result<Ratio, ArithmeticError> {
        match scaled(self.ticks as nat, MICRO as nat, other.ticks as nat) {
            Ok(v) => Ok(Ratio { millionths: v }),
            Err(e) => Err(e),
        }
    }

    /// Length by length: how many times `other` goes into `self`, rounded
    /// down to a millionth.
    pub fn ratio_to(self, other: Length) -> (r: Result<Ratio, ArithmeticError>)
        ensures
            r == self.ratio_over(other),
    {
        match scale(self.ticks, MICRO, other.ticks) {
            Ok(v) => Ok(Ratio { millionths: v }),
            Err(e) => Err(e),
        }
    }
}

impl Duration {
    /// The duration of `value` millionths of `unit`; `None` where that is
    /// beyond 64 bits.
    pub open spec fn of(value: nat, unit: TimeUnit) -> Option<Duration> {
        match scaled(value, unit.micros(), MICRO as nat) {
            Ok(t) => Some(Duration { micros: t }),
            Err(_) => None,
        }
    }

    /// The duration in millionths of `unit`, rounded down.
    pub open spec fn measure(self, unit: TimeUnit) -> nat {
        self.micros as nat * MICRO as nat / unit.micros()
    }

    /// The sum of two durations, where it fits in 64 bits.
    pub open spec fn plus(self, other: Duration) -> Option<Duration> {
        if self.micros + other.micros <= u64::MAX {
            Some(Duration { micros: (self.micros + other.micros) as u64 })
        } else {
            None
        }
    }

    /// The duration of `value` millionths of `unit`.
    pub fn new(value: u64, unit: TimeUnit) -> (r: Option<Duration>)
        ensures
            r == Duration::of(value as nat, unit),
    {
        match scale(value, unit.micros_per_unit(), MICRO) {
            Ok(t) => Some(Duration { micros: t }),
            Err(_) => None,
        }
    }

    /// The duration in millionths of `unit`.
    pub fn get(self, unit: TimeUnit) -> (r: u64)
        ensures
            r == self.measure(unit),
    {
        measure_in(self.micros, unit.micros_per_unit())
    }

    /// The sum of two durations, where it fits in 64 bits.
    pub fn checked_add(self, other: Duration) -> (r: Option<Duration>)
        ensures
            r == self.plus(other),
    {
        if self.micros <= u64::MAX - other.micros {
            Some(Duration { micros: self.micros + other.micros })
        } else {
            None
        }
    }

    /// The difference of two durations, where the second is no longer than the first.
    pub fn checked_sub(self, other: Duration) -> (r: Option<Duration>)
        ensures
            r == (if other.micros <= self.micros {
                Some(Duration { micros: (self.micros - other.micros) as u64 })
            } else {
                None
            }),
    {
        if other.micros <= self.micros {
            Some(Duration { micros: self.micros - other.micros })
        } else {
            None
        }
    }
}

impl Speed {
    /// The speed of `value` millionths of `unit`; `None` where that is beyond
    /// 64 bits.
    pub open spec fn of(value: nat, unit: SpeedUnit) -> Option<Speed> {
        match scaled(value, unit.mm_per_hour(), MICRO as nat) {
            Ok(t) => Some(Speed { mm_per_hour: t }),
            Err(_) => None,
        }
    }

    /// The speed in millionths of `unit`, rounded down.
    pub open spec fn measure(self, unit: SpeedUnit) -> nat {
        self.mm_per_hour as nat * MICRO as nat / unit.mm_per_hour()
    }

    /// The speed of `value` millionths of `unit`.
    pub fn new(value: u64, unit: SpeedUnit) -> (r: Option<Speed>)
        ensures
            r == Speed::of(value as nat, unit),
    {
        match scale(value, unit.mm_per_hour_per_unit(), MICRO) {
            Ok(t) => Some(Speed { mm_per_hour: t }),
            Err(_) => None,
        }
    }

    /// The speed in millionths of `unit`.
    pub fn get(self, unit: SpeedUnit) -> (r: u64)
        ensures
            r == self.measure(unit),
    {
        measure_in(self.mm_per_hour, unit.mm_per_hour_per_unit())
    }

    /// The sum of two speeds, where it fits in 64 bits.
    pub fn checked_add(self, other: Speed) -> (r: Option<Speed>)
        ensures
            r == (if self.mm_per_hour + other.mm_per_hour <= u64::MAX {
                Some(Speed { mm_per_hour: (self.mm_per_hour + other.mm_per_hour) as u64 })
            } else {
                None
            }),
    {
        if self.mm_per_hour <= u64::MAX - other.mm_per_hour {
            Some(Speed { mm_per_hour: self.mm_per_hour + other.mm_per_hour })
        } else {
            None
        }
    }

    /// The difference of two speeds, where the second is no greater than the first.
    pub fn checked_sub(self, other: Speed) -> (r: Option<Speed>)
        ensures
            r == (if other.mm_per_hour <= self.mm_per_hour {
                Some(Speed { mm_per_hour: (self.mm_per_hour - other.mm_per_hour) as u64 })
            } else {
                None
            }),
    {
        if other.mm_per_hour <= self.mm_per_hour {
            Some(Speed { mm_per_hour: self.mm_per_hour - other.mm_per_hour })
        } else {
            None
        }
    }

    /// The ratio of two speeds in millionths, rounded down.
    pub open spec fn ratio_over(self, other: Speed) -> Result<Ratio, ArithmeticError> {
        match scaled(self.mm_per_hour as nat, MICRO as nat, other.mm_per_hour as nat) {
            Ok(v) => Ok(Ratio { millionths: v }),
            Err(e) => Err(e),
        }
    }

    /// Speed by speed: how many times `other` goes into `self`, rounded down
    /// to a millionth.
    pub fn ratio_to(self, other: Speed) -> (r: Result<Ratio, ArithmeticError>)
        ensures
            r == self.ratio_over(other),
    {
        match scale(self.mm_per_hour, MICRO, other.mm_per_hour) {
            Ok(v) => Ok(Ratio { millionths: v }),
            Err(e) => Err(e),
        }
    }
}

/// A value that goes into the base unit and comes back has lost less than a
/// millionth of the unit: measured in the unit it was given in, a length of
/// `value` millionths is `value` or one less, and `value` itself wherever
/// `value` millionths of the unit are a whole number of ticks.
pub proof fn lemma_length_round_trip(value: nat, unit: LengthUnit)
    requires
        Length::of(value, unit) is Some,
    ensures
        value - 1 <= Length::of(value, unit).unwrap().measure(unit) <= value,
        (value * unit.ticks()) % 1_000_000 == 0 ==> Length::of(value, unit).unwrap().measure(unit)
            == value,
{
    lemma_there_and_back(value, unit.ticks());
}

/// The same for a duration, in each of the three units of time.
pub proof fn lemma_duration_round_trip(value: nat, unit: TimeUnit)
    requires
        Duration::of(value, unit) is Some,
    ensures
        value - 1 <= Duration::of(value, unit).unwrap().measure(unit) <= value,
        (value * unit.micros()) % 1_000_000 == 0 ==> Duration::of(
            value,
            unit,
        ).unwrap().measure(unit) == value,
{
    lemma_there_and_back(value, unit.micros());
}

/// Scaling by `p` millionths and back, each rounded down, loses at most one
/// where `p` is a million or more, and nothing where the first division is exact.
pub proof fn lemma_there_and_back(value: nat, p: nat)
    requires
        p >= 1_000_000,
    ensures
        value - 1 <= (value * p / 1_000_000) * 1_000_000 / p <= value,
        (value * p) % 1_000_000 == 0 ==> (value * p / 1_000_000) * 1_000_000 / p == value,
{
    let b = value * p / 1_000_000;
    let r = (value * p) % 1_000_000;
    assert(value * p == b * 1_000_000 + r);
    assert(b * 1_000_000 / p <= value) by (nonlinear_arith)
        requires
            b * 1_000_000 <= value * p,
            p > 0,
    ;
    assert((value - 1) * p == value * p - p) by (nonlinear_arith);
    assert(b * 1_000_000 / p >= value - 1) by (nonlinear_arith)
        requires
            b * 1_000_000 > (value - 1) * p,
            p > 0,
            value >= 0,
            b >= 0,
    ;
    if r == 0 {
        assert(b * 1_000_000 / p == value) by (nonlinear_arith)
            requires
                b * 1_000_000 == value * p,
                p > 0,
        ;
    }
}

} // verus!
