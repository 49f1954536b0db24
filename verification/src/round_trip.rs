//! What the library writes, it reads back.

use vstd::prelude::*;
use crate::text::{
    CharClass, all_digits, decimal_digits, digit_char, digit_value, is_digit, is_letter,
    lemma_digits_value, lemma_run_end, lower, run_end,
};
use crate::scan::{
    fraction_part, fraction_scaled, has_point, numeral_end, numeral_micro, whole_end, whole_part,
};
use crate::quantity::{Duration, Length, LengthUnit, TimeUnit};
use crate::parse::{
    ParseError, after, amount, distance_of, duration_of, first_digit, lowered, part_at, total,
    unit_named,
};
use crate::render::{
    duration_text, fixed_text, hours_of, length_text, minutes_of, nearest_thousandth, seconds_of,
    three_places,
};

verus! {

/// Three written places are three digits that amount to a thousand times
/// their number in millionths.
pub proof fn lemma_three_places(f: nat)
    requires
        f < 1000,
    ensures
        three_places(f).len() == 3,
        all_digits(three_places(f)),
        fraction_scaled(three_places(f), 6) == f * 1000,
{
    let t = three_places(f);
    let a = f / 100 % 10;
    let b = f / 10 % 10;
    let c = f % 10;
    assert(t[0] == digit_char(a) && t[1] == digit_char(b) && t[2] == digit_char(c));
    assert(digit_value(t[0]) == a && digit_value(t[1]) == b && digit_value(t[2]) == c);
    assert(100 * a + 10 * b + c == f);
    reveal_with_fuel(fraction_scaled, 7);
}

/// A number written with three places, followed by something that does not
/// go on with a digit, is read as one numeral from the start, worth as many
/// thousandths as were written.
pub proof fn lemma_fixed_text_is_read(milli: nat, rest: Seq<char>)
    requires
        rest.len() > 0 ==> !is_digit(rest[0]),
    ensures
        first_digit(fixed_text(milli) + rest, 0) == 0,
        fixed_text(milli).len() >= 5,
        numeral_end(fixed_text(milli) + rest, 0) == fixed_text(milli).len(),
        numeral_micro(fixed_text(milli) + rest, 0) == milli * 1000,
{
    let w = decimal_digits(milli / 1000);
    let t = three_places(milli % 1000);
    let n = w.len() as int;
    let s = fixed_text(milli) + rest;
    lemma_digits_value(milli / 1000);
    lemma_three_places(milli % 1000);
    assert(fixed_text(milli).len() == n + 4);
    assert forall|i: int| 0 <= i < n implies CharClass::Digit.holds(#[trigger] s[i]) by {
        assert(s[i] == w[i]);
    }
    assert(s[n] == '.');
    assert(s[0] == w[0]);
    assert(is_digit(s[0]));
    lemma_run_end(s, 0, n, CharClass::Digit);
    assert(whole_end(s, 0) == n);
    assert(has_point(s, 0));
    assert forall|i: int| n + 1 <= i < n + 4 implies CharClass::Digit.holds(#[trigger] s[i]) by {
        assert(s[i] == t[i - n - 1]);
    }
    if n + 4 < s.len() {
        assert(s[n + 4] == rest[0]);
    }
    lemma_run_end(s, n + 1, n + 4, CharClass::Digit);
    assert(numeral_end(s, 0) == n + 4);
    assert(whole_part(s, 0) =~= w);
    assert(fraction_part(s, 0) =~= t);
    assert(numeral_micro(s, 0) == (milli / 1000) * 1_000_000 + (milli % 1000) * 1000);
}

/// Each abbreviation is a word of lower-case letters that names its own unit.
pub proof fn lemma_symbol_names_unit(unit: LengthUnit)
    ensures
        unit.symbol().len() >= 1,
        forall|i: int|
            0 <= i < unit.symbol().len() ==> is_letter(#[trigger] unit.symbol()[i]) && lower(
                unit.symbol()[i],
            ) == unit.symbol()[i],
        unit_named(unit.symbol()) == Some(unit),
{
    reveal_strlit("m");
    reveal_strlit("meter");
    reveal_strlit("meters");
    reveal_strlit("km");
    reveal_strlit("kilometer");
    reveal_strlit("kilometers");
    reveal_strlit("mi");
    reveal_strlit("mile");
    reveal_strlit("miles");
    reveal_strlit("yd");
    reveal_strlit("yard");
    reveal_strlit("yards");
    reveal_strlit("ft");
    reveal_strlit("foot");
    reveal_strlit("feet");
    assert("km"@[0] == 'k' && "mi"@[1] == 'i' && "yd"@[0] == 'y' && "ft"@[0] == 'f');
}

/// A value beyond 64 bits gives no length in any unit.
pub proof fn lemma_beyond_range(value: nat, unit: LengthUnit)
    requires
        value > u64::MAX,
    ensures
        Length::of(value, unit) is None,
{
    let p = unit.ticks();
    assert(value * p / 1_000_000 >= value) by (nonlinear_arith)
        requires
            p >= 1_000_000,
    ;
}

/// A length written in a unit is read back as what was written: the length
/// of the nearest thousandth of the unit, or a bad number where rounding
/// upwards took that beyond 64 bits.
pub proof fn lemma_written_length_is_read(length: Length, unit: LengthUnit)
    ensures
        distance_of(length_text(length, unit)) == (match Length::of(
            nearest_thousandth(length.measure(unit)) * 1000,
            unit,
        ) {
            Some(l) => Ok::<Length, ParseError>(l),
            None => Err(ParseError::BadNumber),
        }),
{
    let milli = nearest_thousandth(length.measure(unit));
    let rest = seq![' '] + unit.symbol();
    let body = fixed_text(milli);
    let s = body + rest;
    let n = body.len() as int;
    lemma_symbol_names_unit(unit);
    assert(rest[0] == ' ');
    lemma_fixed_text_is_read(milli, rest);
    assert(length_text(length, unit) =~= s);
    if milli * 1000 > u64::MAX {
        lemma_beyond_range(milli * 1000, unit);
    }
    assert(s[n] == ' ');
    assert(s[n + 1] == unit.symbol()[0]);
    lemma_run_end(s, n, n + 1, CharClass::Space);
    assert forall|i: int| n + 1 <= i < s.len() implies CharClass::Letter.holds(
        #[trigger] s[i],
    ) by {
        assert(s[i] == unit.symbol()[i - n - 1]);
    }
    lemma_run_end(s, n + 1, s.len() as int, CharClass::Letter);
    let word = s.subrange(n + 1, s.len() as int);
    assert(word =~= unit.symbol());
    assert(lowered(word) =~= unit.symbol());
}

/// Where a unit is `q` thousand base units, `milli` thousandths of it are
/// `milli * q` base units exactly, and measure `milli` thousandths again.
pub proof fn lemma_whole_thousandths(milli: nat, q: nat)
    requires
        q > 0,
    ensures
        milli * 1000 * (q * 1000) / 1_000_000 == milli * q,
        (milli * q) * 1_000_000 / (q * 1000) == milli * 1000,
{
    let a = milli * q;
    let d = q * 1000;
    let b = milli * 1000;
    assert(milli * 1000 * (q * 1000) == a * 1_000_000) by (nonlinear_arith)
        requires
            a == milli * q,
    ;
    assert(a * 1_000_000 / 1_000_000 == a) by (nonlinear_arith);
    assert(a * 1_000_000 == b * d) by (nonlinear_arith)
        requires
            a == milli * q,
            d == q * 1000,
            b == milli * 1000,
    ;
    assert(b * d / d == b) by (nonlinear_arith)
        requires
            d > 0,
    ;
}

/// A length of whole thousandths of a unit measures as many in that unit.
pub proof fn lemma_measure_of_whole(milli: nat, unit: LengthUnit)
    requires
        Length::of(milli * 1000, unit) is Some,
    ensures
        Length::of(milli * 1000, unit).unwrap().measure(unit) == milli * 1000,
{
    let q = unit.ticks() / 1000;
    assert(unit.ticks() == q * 1000);
    lemma_whole_thousandths(milli, q);
}

/// Writing and reading give the length back: a length of `milli`
/// thousandths of a unit, written in that unit, is read as itself.
pub proof fn lemma_round_trip(milli: nat, unit: LengthUnit)
    requires
        Length::of(milli * 1000, unit) is Some,
    ensures
        distance_of(length_text(Length::of(milli * 1000, unit).unwrap(), unit)) == Ok::<
            Length,
            ParseError,
        >(Length::of(milli * 1000, unit).unwrap()),
{
    let length = Length::of(milli * 1000, unit).unwrap();
    lemma_measure_of_whole(milli, unit);
    lemma_written_length_is_read(length, unit);
    assert(nearest_thousandth(length.measure(unit)) == milli);
}

/// The mark that is written after the number of a part of a time.
pub open spec fn mark_of(unit: TimeUnit) -> Seq<char> {
    match unit {
        TimeUnit::Hour => seq!['h'],
        TimeUnit::Minute => seq!['m', 'i', 'n'],
        TimeUnit::Second => seq!['s'],
    }
}

/// One part of a time as it is written: the number, a space, the mark.
pub open spec fn written_part(n: nat, unit: TimeUnit) -> Seq<char> {
    decimal_digits(n) + seq![' '] + mark_of(unit)
}

/// A written part that stands in a text after `before`, with a space or
/// nothing behind it, is read as the part of its own unit with the number
/// that was written, and as a part of no other unit.
pub proof fn lemma_written_part_is_read(
    before: Seq<char>,
    n: nat,
    unit: TimeUnit,
    behind: Seq<char>,
    asked: TimeUnit,
)
    requires
        behind.len() > 0 ==> behind[0] == ' ' && behind.len() > 1 && is_digit(behind[1]),
    ensures
        part_at(before + written_part(n, unit) + behind, before.len() as int, asked) == (if asked
            == unit {
            Some((n * 1_000_000, (before.len() + written_part(n, unit).len()) as int))
        } else {
            None
        }),
        run_end(
            before + written_part(n, unit) + behind,
            (before.len() + written_part(n, unit).len()) as int,
            CharClass::Space,
        ) == before.len() + written_part(n, unit).len() + (if behind.len() > 0 {
            1int
        } else {
            0int
        }),
{
    let w = decimal_digits(n);
    let part = written_part(n, unit);
    let s = before + part + behind;
    let from = before.len() as int;
    let k = w.len() as int;
    lemma_digits_value(n);
    assert(part.len() == k + 1 + mark_of(unit).len());
    assert forall|i: int| from <= i < from + k implies CharClass::Digit.holds(#[trigger] s[i]) by {
        assert(s[i] == w[i - from]);
    }
    assert(s[from] == w[0]);
    assert(s[from + k] == ' ');
    assert(s[from + k + 1] == mark_of(unit)[0]);
    lemma_run_end(s, from, from + k, CharClass::Digit);
    assert(whole_end(s, from) == from + k);
    assert(!has_point(s, from));
    assert(numeral_end(s, from) == from + k);
    assert(whole_part(s, from) =~= w);
    assert(fraction_part(s, from) =~= Seq::<char>::empty());
    reveal_with_fuel(fraction_scaled, 7);
    assert(numeral_micro(s, from) == n * 1_000_000);
    lemma_run_end(s, from + k, from + k + 1, CharClass::Space);
    let at = from + k + 1;
    let end = from + part.len();
    if behind.len() > 0 {
        assert(s[end] == behind[0]);
        assert(s[end + 1] == behind[1]);
        lemma_run_end(s, end, end + 1, CharClass::Space);
    } else {
        lemma_run_end(s, end, end, CharClass::Space);
    }
    match unit {
        TimeUnit::Hour => {},
        TimeUnit::Minute => {
            assert(s[at + 1] == mark_of(unit)[1]);
            assert(s[at + 2] == mark_of(unit)[2]);
        },
        TimeUnit::Second => {
            if at + 3 <= s.len() {
                assert(s[at + 1] == behind[0]);
            }
        },
    }
}

/// The time of `h` hours, `m` minutes and `s` seconds, a part that is
/// `None` being missing; a bad number where it is beyond 64 bits.
pub open spec fn time_of(h: Option<nat>, m: Option<nat>, s: Option<nat>) -> Result<
    Duration,
    ParseError,
> {
    let micros = h.unwrap_or(0) * 3_600_000_000 + m.unwrap_or(0) * 60_000_000 + s.unwrap_or(0)
        * 1_000_000;
    if micros <= u64::MAX {
        Ok(Duration { micros: micros as u64 })
    } else {
        Err(ParseError::BadNumber)
    }
}

/// The sum of the amounts of whole hours, minutes and seconds.
proof fn lemma_sum_of_parts(
    h: Option<(nat, int)>,
    m: Option<(nat, int)>,
    s: Option<(nat, int)>,
    hn: Option<nat>,
    mn: Option<nat>,
    sn: Option<nat>,
)
    requires
        h is Some <==> hn is Some,
        m is Some <==> mn is Some,
        s is Some <==> sn is Some,
        h is Some ==> h.unwrap().0 == hn.unwrap() * 1_000_000,
        m is Some ==> m.unwrap().0 == mn.unwrap() * 1_000_000,
        s is Some ==> s.unwrap().0 == sn.unwrap() * 1_000_000,
    ensures
        (match total(
            amount(h, TimeUnit::Hour),
            amount(m, TimeUnit::Minute),
            amount(s, TimeUnit::Second),
        ) {
            Some(d) => Ok::<Duration, ParseError>(d),
            None => Err(ParseError::BadNumber),
        }) == time_of(hn, mn, sn),
{
    lemma_amount(h, hn, TimeUnit::Hour);
    lemma_amount(m, mn, TimeUnit::Minute);
    lemma_amount(s, sn, TimeUnit::Second);
}

/// The amount of a part of `n` whole units: `n` units, or nothing where
/// the part is missing, or `None` where that is beyond 64 bits.
proof fn lemma_amount(part: Option<(nat, int)>, n: Option<nat>, unit: TimeUnit)
    requires
        part is Some <==> n is Some,
        part is Some ==> part.unwrap().0 == n.unwrap() * 1_000_000,
    ensures
        amount(part, unit) == (if n.unwrap_or(0) * unit.micros() <= u64::MAX {
            Some(Duration { micros: (n.unwrap_or(0) * unit.micros()) as u64 })
        } else {
            None
        }),
{
    if part is Some {
        let k = n.unwrap();
        let p = unit.micros();
        assert(k * 1_000_000 * p / 1_000_000 == k * p) by (nonlinear_arith);
        assert(k * 1_000_000 <= k * p) by (nonlinear_arith)
            requires
                p >= 1_000_000,
        ;
        assert(part == Some((k * 1_000_000, part.unwrap().1)));
    }
}

/// A time is read from its parts: given the places of the three parts, it
/// is the sum of what they amount to, unless all three are missing.
proof fn lemma_time_from_parts(
    s: Seq<char>,
    hours: Option<(nat, int)>,
    second_place: int,
    minutes: Option<(nat, int)>,
    third_place: int,
    seconds: Option<(nat, int)>,
)
    requires
        run_end(s, 0, CharClass::Space) == 0,
        part_at(s, 0, TimeUnit::Hour) == hours,
        run_end(s, after(hours, 0), CharClass::Space) == second_place,
        part_at(s, second_place, TimeUnit::Minute) == minutes,
        run_end(s, after(minutes, second_place), CharClass::Space) == third_place,
        part_at(s, third_place, TimeUnit::Second) == seconds,
        seconds is Some,
    ensures
        duration_of(s) == (match total(
            amount(hours, TimeUnit::Hour),
            amount(minutes, TimeUnit::Minute),
            amount(seconds, TimeUnit::Second),
        ) {
            Some(d) => Ok::<Duration, ParseError>(d),
            None => Err(ParseError::BadNumber),
        }),
{
}

/// A written part begins with a digit.
proof fn lemma_part_begins(n: nat, unit: TimeUnit)
    ensures
        written_part(n, unit).len() >= 3,
        is_digit(written_part(n, unit)[0]),
{
    lemma_digits_value(n);
    assert(written_part(n, unit)[0] == decimal_digits(n)[0]);
}

/// A time written with hours is read as its three parts.
pub proof fn lemma_read_three(h: nat, m: nat, sec: nat)
    ensures
        duration_of(
            written_part(h, TimeUnit::Hour) + seq![' '] + written_part(m, TimeUnit::Minute)
                + seq![' '] + written_part(sec, TimeUnit::Second),
        ) == time_of(Some(h), Some(m), Some(sec)),
{
    let hp = written_part(h, TimeUnit::Hour);
    let mp = written_part(m, TimeUnit::Minute);
    let sp = written_part(sec, TimeUnit::Second);
    let none = Seq::<char>::empty();
    let gap = seq![' '];
    let s = hp + gap + mp + gap + sp;
    let a = hp.len() as int;
    let b = a + 1 + mp.len();
    let first = Some((h * 1_000_000, a));
    let second = Some((m * 1_000_000, b));
    let third = Some((sec * 1_000_000, s.len() as int));
    lemma_part_begins(h, TimeUnit::Hour);
    lemma_part_begins(m, TimeUnit::Minute);
    lemma_part_begins(sec, TimeUnit::Second);
    assert(run_end(s, 0, CharClass::Space) == 0) by {
        assert(s[0] == hp[0]);
    }
    assert(part_at(s, 0, TimeUnit::Hour) == first && run_end(s, a, CharClass::Space) == a + 1) by {
        let behind = gap + mp + gap + sp;
        assert(behind[0] == ' ' && behind[1] == mp[0]);
        assert(s =~= none + hp + behind);
        lemma_written_part_is_read(none, h, TimeUnit::Hour, behind, TimeUnit::Hour);
    }
    assert(part_at(s, a + 1, TimeUnit::Minute) == second && run_end(s, b, CharClass::Space) == b
        + 1) by {
        let behind = gap + sp;
        assert(behind[0] == ' ' && behind[1] == sp[0]);
        assert(s =~= (hp + gap) + mp + behind);
        lemma_written_part_is_read(hp + gap, m, TimeUnit::Minute, behind, TimeUnit::Minute);
    }
    assert(part_at(s, b + 1, TimeUnit::Second) == third) by {
        assert(s =~= (hp + gap + mp + gap) + sp + none);
        lemma_written_part_is_read(
            hp + gap + mp + gap,
            sec,
            TimeUnit::Second,
            none,
            TimeUnit::Second,
        );
    }
    lemma_time_from_parts(s, first, a + 1, second, b + 1, third);
    lemma_sum_of_parts(first, second, third, Some(h), Some(m), Some(sec));
}

/// A time written without hours is read as its two parts.
pub proof fn lemma_read_two(m: nat, sec: nat)
    ensures
        duration_of(
            written_part(m, TimeUnit::Minute) + seq![' '] + written_part(sec, TimeUnit::Second),
        ) == time_of(None, Some(m), Some(sec)),
{
    let mp = written_part(m, TimeUnit::Minute);
    let sp = written_part(sec, TimeUnit::Second);
    let none = Seq::<char>::empty();
    let gap = seq![' '];
    let s = mp + gap + sp;
    let a = mp.len() as int;
    let second = Some((m * 1_000_000, a));
    let third = Some((sec * 1_000_000, s.len() as int));
    lemma_part_begins(m, TimeUnit::Minute);
    lemma_part_begins(sec, TimeUnit::Second);
    assert(run_end(s, 0, CharClass::Space) == 0) by {
        assert(s[0] == mp[0]);
    }
    assert(part_at(s, 0, TimeUnit::Hour) is None && part_at(s, 0, TimeUnit::Minute) == second
        && run_end(s, a, CharClass::Space) == a + 1) by {
        let behind = gap + sp;
        assert(behind[0] == ' ' && behind[1] == sp[0]);
        assert(s =~= none + mp + behind);
        lemma_written_part_is_read(none, m, TimeUnit::Minute, behind, TimeUnit::Hour);
        lemma_written_part_is_read(none, m, TimeUnit::Minute, behind, TimeUnit::Minute);
    }
    assert(part_at(s, a + 1, TimeUnit::Second) == third) by {
        assert(s =~= (mp + gap) + sp + none);
        lemma_written_part_is_read(mp + gap, sec, TimeUnit::Second, none, TimeUnit::Second);
    }
    lemma_time_from_parts(s, None, 0, second, a + 1, third);
    lemma_sum_of_parts(None, second, third, None, Some(m), Some(sec));
}

/// A time written in seconds alone is read as that one part.
pub proof fn lemma_read_one(sec: nat)
    ensures
        duration_of(written_part(sec, TimeUnit::Second)) == time_of(None, None, Some(sec)),
{
    let s = written_part(sec, TimeUnit::Second);
    let none = Seq::<char>::empty();
    let third = Some((sec * 1_000_000, s.len() as int));
    lemma_part_begins(sec, TimeUnit::Second);
    assert(run_end(s, 0, CharClass::Space) == 0);
    assert(part_at(s, 0, TimeUnit::Hour) is None && part_at(s, 0, TimeUnit::Minute) is None
        && part_at(s, 0, TimeUnit::Second) == third) by {
        assert(s =~= none + s + none);
        lemma_written_part_is_read(none, sec, TimeUnit::Second, none, TimeUnit::Hour);
        lemma_written_part_is_read(none, sec, TimeUnit::Second, none, TimeUnit::Minute);
        lemma_written_part_is_read(none, sec, TimeUnit::Second, none, TimeUnit::Second);
    }
    lemma_time_from_parts(s, None, 0, None, 0, third);
    lemma_sum_of_parts(None, None, third, None, None, Some(sec));
}

/// A time is written as its parts, each a number, a space and a mark, with
/// a space between two parts.
pub proof fn lemma_duration_text_parts(d: Duration)
    ensures
        duration_text(d) == (if hours_of(d) > 0 {
            written_part(hours_of(d), TimeUnit::Hour) + seq![' '] + written_part(
                minutes_of(d),
                TimeUnit::Minute,
            ) + seq![' '] + written_part(seconds_of(d), TimeUnit::Second)
        } else if minutes_of(d) > 0 {
            written_part(minutes_of(d), TimeUnit::Minute) + seq![' '] + written_part(
                seconds_of(d),
                TimeUnit::Second,
            )
        } else {
            written_part(seconds_of(d), TimeUnit::Second)
        }),
{
    reveal_strlit(" h ");
    reveal_strlit(" min ");
    reveal_strlit(" s");
    let hp = written_part(hours_of(d), TimeUnit::Hour);
    let mp = written_part(minutes_of(d), TimeUnit::Minute);
    let sp = written_part(seconds_of(d), TimeUnit::Second);
    let gap = seq![' '];
    assert(" h "@ =~= seq![' ', 'h', ' ']);
    assert(" min "@ =~= seq![' ', 'm', 'i', 'n', ' ']);
    assert(" s"@ =~= seq![' ', 's']);
    let tail = decimal_digits(seconds_of(d)) + " s"@;
    assert(tail =~= sp);
    if hours_of(d) > 0 {
        assert(duration_text(d) =~= hp + gap + mp + gap + sp);
    } else if minutes_of(d) > 0 {
        assert(duration_text(d) =~= mp + gap + sp);
    }
}

/// Hours, minutes and seconds add up to the whole seconds of a duration.
proof fn lemma_parts_add_up(d: Duration)
    ensures
        hours_of(d) * 3_600_000_000 + minutes_of(d) * 60_000_000 + seconds_of(d) * 1_000_000
            == d.micros / 1_000_000 * 1_000_000,
{
    let secs = d.micros as nat / 1_000_000;
    assert(secs == (secs / 3600) * 3600 + (secs % 3600 / 60) * 60 + secs % 60);
}

/// A written time is read back as that time cut to a whole second: reading
/// never fails on what was written.
pub proof fn lemma_written_duration_is_read(d: Duration)
    ensures
        duration_of(duration_text(d)) == Ok::<Duration, ParseError>(
            Duration { micros: (d.micros / 1_000_000 * 1_000_000) as u64 },
        ),
{
    let h = hours_of(d);
    let m = minutes_of(d);
    let sec = seconds_of(d);
    let cut = Ok::<Duration, ParseError>(
        Duration { micros: (d.micros / 1_000_000 * 1_000_000) as u64 },
    );
    lemma_duration_text_parts(d);
    lemma_parts_add_up(d);
    if h > 0 {
        lemma_read_three(h, m, sec);
        assert(time_of(Some(h), Some(m), Some(sec)) == cut);
    } else if m > 0 {
        lemma_read_two(m, sec);
        assert(time_of(None, Some(m), Some(sec)) == cut);
    } else {
        lemma_read_one(sec);
        assert(time_of(None, None, Some(sec)) == cut);
    }
}

} // verus!
