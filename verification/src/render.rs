//! Quantities as text.
//!
//! A length, a speed and a ratio are written with three decimal places,
//! rounded to the nearest thousandth, a half upwards. A duration is written
//! in whole hours, minutes and seconds, the fraction of a second cut off; a
//! part is left out only while every greater part is zero.

use vstd::prelude::*;
use vstd::string::StringExecFns;
use crate::text::{decimal_digits, digit_char};
use crate::quantity::{Duration, Length, LengthUnit, Ratio, Speed, SpeedUnit};

verus! {

/// The three digits of a number below a thousand, with leading zeros.
pub open spec fn three_places(n: nat) -> Seq<char> {
    seq![digit_char(n / 100 % 10), digit_char(n / 10 % 10), digit_char(n % 10)]
}

/// `milli` thousandths as a decimal number with three places.
pub open spec fn fixed_text(milli: nat) -> Seq<char> {
    decimal_digits(milli / 1000) + seq!['.'] + three_places(milli % 1000)
}

/// The thousandth nearest to `micro` millionths, a half going upwards.
pub open spec fn nearest_thousandth(micro: nat) -> nat {
    (micro + 500) / 1000
}

/// A length in `unit`: the number, a space, the unit's abbreviation.
pub open spec fn length_text(length: Length, unit: LengthUnit) -> Seq<char> {
    fixed_text(nearest_thousandth(length.measure(unit))) + seq![' '] + unit.symbol()
}

/// A speed in `unit`: the number, a space, the unit's abbreviation.
pub open spec fn speed_text(speed: Speed, unit: SpeedUnit) -> Seq<char> {
    fixed_text(nearest_thousandth(speed.measure(unit))) + seq![' '] + unit.symbol()
}

/// A ratio as a number with three places.
pub open spec fn ratio_text(ratio: Ratio) -> Seq<char> {
    fixed_text(nearest_thousandth(ratio.millionths as nat))
}

/// The whole hours of a duration.
pub open spec fn hours_of(d: Duration) -> nat {
    d.micros as nat / 1_000_000 / 3600
}

/// The whole minutes beyond the whole hours.
pub open spec fn minutes_of(d: Duration) -> nat {
    d.micros as nat / 1_000_000 % 3600 / 60
}

/// The whole seconds beyond the whole minutes.
pub open spec fn seconds_of(d: Duration) -> nat {
    d.micros as nat / 1_000_000 % 60
}

/// A duration in hours, minutes and seconds, from its first part that is
/// not zero on; the seconds alone where hours and minutes are both zero.
pub open spec fn duration_text(d: Duration) -> Seq<char> {
    let tail = decimal_digits(seconds_of(d)) + " s"@;
    if hours_of(d) > 0 {
        decimal_digits(hours_of(d)) + " h "@ + decimal_digits(minutes_of(d)) + " min "@ + tail
    } else if minutes_of(d) > 0 {
        decimal_digits(minutes_of(d)) + " min "@ + tail
    } else {
        tail
    }
}

/// The digit for a number below ten.
pub(crate) fn digit_text(d: u64) -> (r: &'static str)
    requires
        d < 10,
    ensures
        r@ == seq![digit_char(d as nat)],
{
    proof {
        reveal_strlit("0");
        reveal_strlit("1");
        reveal_strlit("2");
        reveal_strlit("3");
        reveal_strlit("4");
        reveal_strlit("5");
        reveal_strlit("6");
        reveal_strlit("7");
        reveal_strlit("8");
        reveal_strlit("9");
    }
    let r: &'static str = if d == 0 {
        "0"
    } else if d == 1 {
        "1"
    } else if d == 2 {
        "2"
    } else if d == 3 {
        "3"
    } else if d == 4 {
        "4"
    } else if d == 5 {
        "5"
    } else if d == 6 {
        "6"
    } else if d == 7 {
        "7"
    } else if d == 8 {
        "8"
    } else {
        "9"
    };
    assert(r@ =~= seq![digit_char(d as nat)]);
    r
}

/// Appends the decimal digits of `n` to `out`.
pub(crate) fn push_number(out: &mut String, n: u64)
    ensures
        final(out)@ == old(out)@ + decimal_digits(n as nat),
    decreases n,
{
    if n >= 10 {
        push_number(out, n / 10);
    }
    out.append(digit_text(n % 10));
    assert(final(out)@ =~= old(out)@ + decimal_digits(n as nat));
}

/// The thousandth nearest to `micro` millionths.
pub fn round_to_thousandth(micro: u64) -> (r: u64)
    ensures
        r == nearest_thousandth(micro as nat),
{
    if micro % 1000 >= 500 {
        micro / 1000 + 1
    } else {
        micro / 1000
    }
}

/// Appends `milli` thousandths as a decimal number with three places.
pub(crate) fn push_fixed(out: &mut String, milli: u64)
    ensures
        final(out)@ == old(out)@ + fixed_text(milli as nat),
{
    let f: u64 = milli % 1000;
    push_number(out, milli / 1000);
    out.append(".");
    out.append(digit_text(f / 100 % 10));
    out.append(digit_text(f / 10 % 10));
    out.append(digit_text(f % 10));
    proof {
        reveal_strlit(".");
        assert("."@ =~= seq!['.']);
        assert(final(out)@ =~= old(out)@ + fixed_text(milli as nat));
    }
}

/// A duration as text: `<h> h <m> min <s> s` where it has a whole hour,
/// `<m> min <s> s` where it has none but a whole minute, `<s> s` else.
pub fn format_duration(duration: Duration) -> (r: String)
    ensures
        r@ == duration_text(duration),
{
    let secs: u64 = duration.micros / 1_000_000;
    let h: u64 = secs / 3600;
    let m: u64 = secs % 3600 / 60;
    let s: u64 = secs % 60;
    let mut out: String = String::new();
    if h > 0 {
        push_number(&mut out, h);
        out.append(" h ");
    }
    if h > 0 || m > 0 {
        push_number(&mut out, m);
        out.append(" min ");
    }
    push_number(&mut out, s);
    out.append(" s");
    assert(out@ =~= duration_text(duration));
    out
}

/// A length in `unit` with three decimal places and the unit's abbreviation.
pub fn format_length(length: Length, unit: LengthUnit) -> (r: String)
    ensures
        r@ == length_text(length, unit),
{
    let mut out: String = String::new();
    push_fixed(&mut out, round_to_thousandth(length.get(unit)));
    out.append(" ");
    out.append(unit.abbreviation());
    proof {
        reveal_strlit(" ");
        assert(" "@ =~= seq![' ']);
        assert(out@ =~= length_text(length, unit));
    }
    out
}

/// A speed in `unit` with three decimal places and the unit's abbreviation.
pub fn format_speed(speed: Speed, unit: SpeedUnit) -> (r: String)
    ensures
        r@ == speed_text(speed, unit),
{
    let mut out: String = String::new();
    push_fixed(&mut out, round_to_thousandth(speed.get(unit)));
    out.append(" ");
    out.append(unit.abbreviation());
    proof {
        reveal_strlit(" ");
        assert(" "@ =~= seq![' ']);
        assert(out@ =~= speed_text(speed, unit));
    }
    out
}

/// A ratio with three decimal places.
pub fn format_ratio(ratio: Ratio) -> (r: String)
    ensures
        r@ == ratio_text(ratio),
{
    let mut out: String = String::new();
    push_fixed(&mut out, round_to_thousandth(ratio.millionths));
    assert(out@ =~= ratio_text(ratio));
    out
}

} // verus!
