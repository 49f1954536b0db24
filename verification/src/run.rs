//! A run and what follows from it at constant pace.

use vstd::prelude::*;
use crate::quantity::{ArithmeticError, Duration, Length, Ratio, Speed, scale, scaled};

verus! {

/// One run: the distance covered and the time it took.
#[derive(Clone, Copy, Debug, PartialEq, Eq, Structural)]
pub struct Run {
    pub distance: Length,
    pub time: Duration,
}

impl Run {
    /// The time that `other` takes at the pace of this run:
    /// `other / distance * time`, rounded down to a microsecond.
    pub open spec fn time_over(self, other: Length) -> Result<Duration, ArithmeticError> {
        match scaled(other.ticks as nat, self.time.micros as nat, self.distance.ticks as nat) {
            Ok(v) => Ok(Duration { micros: v }),
            Err(e) => Err(e),
        }
    }
}

/// The average speed of the run, distance by time: `DivisionByZero` for a
/// run of no time, `Overflow` for a speed beyond 64 bits of millimetres per
/// hour.
pub fn average_speed(run: &Run) -> (r: Result<Speed, ArithmeticError>)
    ensures
        r == run.distance.speed_over(run.time),
        run.time.micros == 0 <==> r == Err::<Speed, ArithmeticError>(ArithmeticError::DivisionByZero),
{
    run.distance.per(run.time)
}

/// The time for another distance at the same pace: `DivisionByZero` for a
/// run of no distance, `Overflow` for a time beyond 64 bits of microseconds.
pub fn projected_time(run: &Run, other_distance: Length) -> (r: Result<Duration, ArithmeticError>)
    ensures
        r == run.time_over(other_distance),
        run.distance.ticks == 0 <==> r == Err::<Duration, ArithmeticError>(
            ArithmeticError::DivisionByZero,
        ),
{
    match scale(other_distance.ticks, run.time.micros, run.distance.ticks) {
        Ok(v) => Ok(Duration { micros: v }),
        Err(e) => Err(e),
    }
}

/// How many times as fast as `b` the speed `a` is: `DivisionByZero` where
/// `b` is no speed at all.
pub fn speed_ratio(a: Speed, b: Speed) -> (r: Result<Ratio, ArithmeticError>)
    ensures
        r == a.ratio_over(b),
        b.mm_per_hour == 0 <==> r == Err::<Ratio, ArithmeticError>(ArithmeticError::DivisionByZero),
{
    a.ratio_to(b)
}

/// The projected time is the run's own time for the run's own distance, and
/// no time at all for no distance.
pub proof fn lemma_projection_fixed_points(run: Run)
    requires
        run.distance.ticks > 0,
    ensures
        run.time_over(run.distance) == Ok::<Duration, ArithmeticError>(run.time),
        run.time_over(Length { ticks: 0 }) == Ok::<Duration, ArithmeticError>(
            Duration { micros: 0 },
        ),
{
    let d = run.distance.ticks as nat;
    let t = run.time.micros as nat;
    assert(d * t / d == t) by (nonlinear_arith)
        requires
            d > 0,
    ;
    assert(0 * t / d == 0) by (nonlinear_arith)
        requires
            d > 0,
    ;
}

} // verus!
