//! Reading a distance and a time from free text.
//!
//! A distance is the first numeral of the text, then optional white space,
//! then a word of letters that names the unit, in any case. What stands
//! before the numeral and after the word is not read. A numeral without a
//! unit is refused: there is no default unit.
//!
//! A time is, from the start of the text, up to three parts in this order:
//! a numeral and `h`, a numeral and `min`, a numeral and `s` (or `sec`).
//! White space may stand before each part and between a numeral and its
//! mark. Each part may be missing, but not all three: a text that starts
//! with none of them is empty as a time, whatever else it holds. What
//! follows the last part is not read.

use vstd::prelude::*;
use crate::text::{CharClass, chars_of, is_digit, lower, run_end, scan_run};
use crate::scan::{Numeral, fits, numeral_end, numeral_micro, read_numeral};
use crate::quantity::{Duration, Length, LengthUnit, TimeUnit};
use crate::run::Run;

verus! {

/// Why a text was not understood.
#[derive(Clone, Copy, Debug, PartialEq, Eq, Structural)]
pub enum ParseError {
    /// A distance without a numeral. A time never fails so: each of its
    /// parts may be missing, and a time without any is `Empty`.
    NoMatch,
    /// The word after the numeral names no unit of length.
    BadUnit,
    /// A numeral, or what it amounts to in the base unit, is beyond 64 bits.
    BadNumber,
    /// A time without hours, minutes and seconds.
    Empty,
}

/// The text with each upper-case ASCII letter replaced by its lower-case form.
pub open spec fn lowered(s: Seq<char>) -> Seq<char> {
    Seq::new(s.len(), |i: int| lower(s[i]))
}

/// The unit that a lower-case word names.
pub open spec fn unit_named(word: Seq<char>) -> Option<LengthUnit> {
    if word == "m"@ || word == "meter"@ || word == "meters"@ {
        Some(LengthUnit::Meter)
    } else if word == "km"@ || word == "kilometer"@ || word == "kilometers"@ {
        Some(LengthUnit::Kilometer)
    } else if word == "mi"@ || word == "mile"@ || word == "miles"@ {
        Some(LengthUnit::Mile)
    } else if word == "yd"@ || word == "yard"@ || word == "yards"@ {
        Some(LengthUnit::Yard)
    } else if word == "ft"@ || word == "foot"@ || word == "feet"@ {
        Some(LengthUnit::Foot)
    } else {
        None
    }
}

/// The position of the first digit at or after `from`; the length of the
/// text where there is none.
pub open spec fn first_digit(s: Seq<char>, from: int) -> int
    decreases s.len() - from,
{
    if 0 <= from < s.len() && !is_digit(s[from]) {
        first_digit(s, from + 1)
    } else {
        from
    }
}

/// What a text says as a distance.
pub open spec fn distance_of(s: Seq<char>) -> Result<Length, ParseError> {
    let start = first_digit(s, 0);
    let word_from = run_end(s, numeral_end(s, start), CharClass::Space);
    let word_to = run_end(s, word_from, CharClass::Letter);
    if start >= s.len() {
        Err(ParseError::NoMatch)
    } else {
        match fits(numeral_micro(s, start)) {
            None => Err(ParseError::BadNumber),
            Some(value) => match unit_named(lowered(s.subrange(word_from, word_to))) {
                None => Err(ParseError::BadUnit),
                Some(unit) => match Length::of(value as nat, unit) {
                    None => Err(ParseError::BadNumber),
                    Some(length) => Ok(length),
                },
            },
        }
    }
}

/// Where the mark of `unit` that starts at `at` ends, if one starts there:
/// `h`, `min`, and `s` or `sec`.
pub open spec fn mark_end(s: Seq<char>, at: int, unit: TimeUnit) -> Option<int> {
    match unit {
        TimeUnit::Hour => if at < s.len() && s[at] == 'h' {
            Some(at + 1)
        } else {
            None
        },
        TimeUnit::Minute => if at + 3 <= s.len() && s[at] == 'm' && s[at + 1] == 'i' && s[at + 2]
            == 'n' {
            Some(at + 3)
        } else {
            None
        },
        TimeUnit::Second => if at < s.len() && s[at] == 's' {
            if at + 3 <= s.len() && s[at + 1] == 'e' && s[at + 2] == 'c' {
                Some(at + 3)
            } else {
                Some(at + 1)
            }
        } else {
            None
        },
    }
}

/// The part of a time for `unit` that starts at `from`, if one does: its
/// value in millionths of the unit and the position after its mark.
pub open spec fn part_at(s: Seq<char>, from: int, unit: TimeUnit) -> Option<(nat, int)> {
    if 0 <= from < s.len() && is_digit(s[from]) {
        match mark_end(s, run_end(s, numeral_end(s, from), CharClass::Space), unit) {
            Some(end) => Some((numeral_micro(s, from), end)),
            None => None,
        }
    } else {
        None
    }
}

/// Where reading goes on after a part, or after its place where it is missing.
pub open spec fn after(part: Option<(nat, int)>, from: int) -> int {
    match part {
        Some((_, end)) => end,
        None => from,
    }
}

/// What a part amounts to: nothing where it is missing, `None` where it is
/// beyond 64 bits.
pub open spec fn amount(part: Option<(nat, int)>, unit: TimeUnit) -> Option<Duration> {
    match part {
        None => Some(Duration { micros: 0 }),
        Some((value, _)) => match fits(value) {
            None => None,
            Some(v) => Duration::of(v as nat, unit),
        },
    }
}

/// The sum of three amounts; `None` where one of them, or the sum, is beyond 64 bits.
pub open spec fn total(h: Option<Duration>, m: Option<Duration>, s: Option<Duration>) -> Option<
    Duration,
> {
    if h is Some && m is Some && s is Some && h.unwrap().micros + m.unwrap().micros
        + s.unwrap().micros <= u64::MAX {
        Some(
            Duration {
                micros: (h.unwrap().micros + m.unwrap().micros + s.unwrap().micros) as u64,
            },
        )
    } else {
        None
    }
}

/// What a text says as a time.
pub open spec fn duration_of(s: Seq<char>) -> Result<Duration, ParseError> {
    let start = run_end(s, 0, CharClass::Space);
    let hours = part_at(s, start, TimeUnit::Hour);
    let second_place = run_end(s, after(hours, start), CharClass::Space);
    let minutes = part_at(s, second_place, TimeUnit::Minute);
    let third_place = run_end(s, after(minutes, second_place), CharClass::Space);
    let seconds = part_at(s, third_place, TimeUnit::Second);
    if hours is None && minutes is None && seconds is None {
        Err(ParseError::Empty)
    } else {
        match total(
            amount(hours, TimeUnit::Hour),
            amount(minutes, TimeUnit::Minute),
            amount(seconds, TimeUnit::Second),
        ) {
            Some(d) => Ok(d),
            None => Err(ParseError::BadNumber),
        }
    }
}

/// The lower-case form of an upper-case ASCII letter; any other character itself.
pub fn lower_of(c: char) -> (r: char)
    ensures
        r == lower(c),
{
    if 'A' <= c && c <= 'Z' {
        ((c as u8) + 32) as char
    } else {
        c
    }
}

/// Whether the characters of `t` from `from` up to `to` spell `word` once
/// their upper-case letters are made lower-case.
pub(crate) fn spells(t: &Vec<char>, from: usize, to: usize, word: &str) -> (r: bool)
    requires
        from <= to <= t@.len(),
    ensures
        r == (lowered(t@.subrange(from as int, to as int)) == word@),
{
    let w: Vec<char> = chars_of(word);
    let n: usize = w.len();
    let ghost token = lowered(t@.subrange(from as int, to as int));
    if n != to - from {
        return false;
    }
    let mut i: usize = 0;
    while i < n
        invariant
            from <= to <= t@.len(),
            n == to - from,
            w@ == word@,
            n == w@.len(),
            i <= n,
            token == lowered(t@.subrange(from as int, to as int)),
            forall|k: int| 0 <= k < i ==> token[k] == word@[k],
        decreases n - i,
    {
        if lower_of(t[from + i]) != w[i] {
            assert(token[i as int] != word@[i as int]);
            return false;
        }
        i += 1;
    }
    assert(token =~= word@);
    true
}

/// The unit of length that the characters of `t` from `from` up to `to`
/// name, in any case: `m`, `meter`, `meters`; `km`, `kilometer`,
/// `kilometers`; `mi`, `mile`, `miles`; `yd`, `yard`, `yards`; `ft`, `foot`,
/// `feet`.
pub(crate) fn unit_in(t: &Vec<char>, from: usize, to: usize) -> (r: Option<LengthUnit>)
    requires
        from <= to <= t@.len(),
    ensures
        r == unit_named(lowered(t@.subrange(from as int, to as int))),
{
    if spells(t, from, to, "m") || spells(t, from, to, "meter") || spells(t, from, to, "meters") {
        Some(LengthUnit::Meter)
    } else if spells(t, from, to, "km") || spells(t, from, to, "kilometer") || spells(
        t,
        from,
        to,
        "kilometers",
    ) {
        Some(LengthUnit::Kilometer)
    } else if spells(t, from, to, "mi") || spells(t, from, to, "mile") || spells(
        t,
        from,
        to,
        "miles",
    ) {
        Some(LengthUnit::Mile)
    } else if spells(t, from, to, "yd") || spells(t, from, to, "yard") || spells(
        t,
        from,
        to,
        "yards",
    ) {
        Some(LengthUnit::Yard)
    } else if spells(t, from, to, "ft") || spells(t, from, to, "foot") || spells(
        t,
        from,
        to,
        "feet",
    ) {
        Some(LengthUnit::Foot)
    } else {
        None
    }
}

/// The unit of length that `token` names, in any case; `None` for any
/// other word, the empty one too.
pub fn resolve_unit(token: &str) -> (r: Option<LengthUnit>)
    ensures
        r == unit_named(lowered(token@)),
{
    let t: Vec<char> = chars_of(token);
    assert(t@.subrange(0, t@.len() as int) =~= t@);
    unit_in(&t, 0, t.len())
}

/// The position of the first digit of `t`; its length where it has none.
pub(crate) fn find_digit(t: &Vec<char>) -> (r: usize)
    ensures
        r == first_digit(t@, 0),
        r <= t@.len(),
        r < t@.len() ==> is_digit(t@[r as int]),
{
    let mut i: usize = 0;
    while i < t.len() && !CharClass::Digit.contains(t[i])
        invariant
            i <= t@.len(),
            first_digit(t@, 0) == first_digit(t@, i as int),
        decreases t@.len() - i,
    {
        i += 1;
    }
    i
}

/// Reads a distance: `Ok` with the length that the numeral and the unit
/// give; `NoMatch` where the text has no digit; `BadUnit` where the word
/// after the numeral, which may be empty, names no unit; `BadNumber` where
/// the numeral or the length is beyond 64 bits.
pub fn parse_distance(text: &str) -> (r: Result<Length, ParseError>)
    ensures
        r == distance_of(text@),
{
    let t: Vec<char> = chars_of(text);
    let start: usize = find_digit(&t);
    if start >= t.len() {
        return Err(ParseError::NoMatch);
    }
    let numeral: Numeral = read_numeral(&t, start);
    let word_from: usize = scan_run(&t, numeral.end, CharClass::Space);
    let word_to: usize = scan_run(&t, word_from, CharClass::Letter);
    match numeral.micro {
        None => Err(ParseError::BadNumber),
        Some(value) => match unit_in(&t, word_from, word_to) {
            None => Err(ParseError::BadUnit),
            Some(unit) => match Length::new(value, unit) {
                None => Err(ParseError::BadNumber),
                Some(length) => Ok(length),
            },
        },
    }
}

/// Where the mark of `unit` that starts at `at` ends, if one starts there.
pub(crate) fn read_mark(t: &Vec<char>, at: usize, unit: TimeUnit) -> (r: Option<usize>)
    requires
        at <= t@.len(),
    ensures
        match r {
            Some(end) => mark_end(t@, at as int, unit) == Some(end as int) && at < end <= t@.len(),
            None => mark_end(t@, at as int, unit) is None,
        },
{
    let n: usize = t.len();
    match unit {
        TimeUnit::Hour => if at < n && t[at] == 'h' {
            Some(at + 1)
        } else {
            None
        },
        TimeUnit::Minute => if n - at >= 3 && t[at] == 'm' && t[at + 1] == 'i' && t[at + 2]
            == 'n' {
            Some(at + 3)
        } else {
            None
        },
        TimeUnit::Second => if at < n && t[at] == 's' {
            if n - at >= 3 && t[at + 1] == 'e' && t[at + 2] == 'c' {
                Some(at + 3)
            } else {
                Some(at + 1)
            }
        } else {
            None
        },
    }
}

/// The part of a time for `unit` that starts at `from`, if one does.
pub(crate) fn read_part(t: &Vec<char>, from: usize, unit: TimeUnit) -> (r: Option<Numeral>)
    requires
        from <= t@.len(),
    ensures
        match r {
            Some(n) => {
                &&& part_at(t@, from as int, unit) is Some
                &&& n.micro == fits(part_at(t@, from as int, unit).unwrap().0)
                &&& n.end == part_at(t@, from as int, unit).unwrap().1
                &&& from < n.end <= t@.len()
            },
            None => part_at(t@, from as int, unit) is None,
        },
{
    if from < t.len() && CharClass::Digit.contains(t[from]) {
        let numeral: Numeral = read_numeral(t, from);
        let at: usize = scan_run(t, numeral.end, CharClass::Space);
        match read_mark(t, at, unit) {
            Some(end) => Some(Numeral { micro: numeral.micro, end }),
            None => None,
        }
    } else {
        None
    }
}

/// What a part that was read amounts to.
pub(crate) fn amount_of(part: Option<Numeral>, unit: TimeUnit) -> (r: Option<Duration>)
    ensures
        r == (match part {
            None => Some(Duration { micros: 0 }),
            Some(n) => match n.micro {
                None => None,
                Some(v) => Duration::of(v as nat, unit),
            },
        }),
{
    match part {
        None => Some(Duration { micros: 0 }),
        Some(n) => match n.micro {
            None => None,
            Some(v) => Duration::new(v, unit),
        },
    }
}

/// The sum of three amounts.
pub(crate) fn total_of(h: Option<Duration>, m: Option<Duration>, s: Option<Duration>) -> (r: Option<
    Duration,
>)
    ensures
        r == total(h, m, s),
{
    match (h, m, s) {
        (Some(a), Some(b), Some(c)) => match a.checked_add(b) {
            Some(ab) => ab.checked_add(c),
            None => None,
        },
        _ => None,
    }
}

/// Reads a time: `Ok` with the sum of the parts that are there; `Empty`
/// where the text starts with none of the three parts; `BadNumber` where a
/// numeral, a part or the sum is beyond 64 bits.
pub fn parse_duration(text: &str) -> (r: Result<Duration, ParseError>)
    ensures
        r == duration_of(text@),
{
    let t: Vec<char> = chars_of(text);
    let start: usize = scan_run(&t, 0, CharClass::Space);
    let hours: Option<Numeral> = read_part(&t, start, TimeUnit::Hour);
    let second_place: usize = scan_run(
        &t,
        match hours {
            Some(n) => n.end,
            None => start,
        },
        CharClass::Space,
    );
    let minutes: Option<Numeral> = read_part(&t, second_place, TimeUnit::Minute);
    let third_place: usize = scan_run(
        &t,
        match minutes {
            Some(n) => n.end,
            None => second_place,
        },
        CharClass::Space,
    );
    let seconds: Option<Numeral> = read_part(&t, third_place, TimeUnit::Second);
    if hours.is_none() && minutes.is_none() && seconds.is_none() {
        Err(ParseError::Empty)
    } else {
        match total_of(
            amount_of(hours, TimeUnit::Hour),
            amount_of(minutes, TimeUnit::Minute),
            amount_of(seconds, TimeUnit::Second),
        ) {
            Some(d) => Ok(d),
            None => Err(ParseError::BadNumber),
        }
    }
}

/// Reads a run from the two texts: the error of the distance where it has
/// one, else that of the time, else the run.
pub fn parse_run(distance_text: &str, time_text: &str) -> (r: Result<Run, ParseError>)
    ensures
        r == (match distance_of(distance_text@) {
            Err(e) => Err(e),
            Ok(distance) => match duration_of(time_text@) {
                Err(e) => Err(e),
                Ok(time) => Ok(Run { distance, time }),
            },
        }),
{
    match parse_distance(distance_text) {
        Err(e) => Err(e),
        Ok(distance) => match parse_duration(time_text) {
            Err(e) => Err(e),
            Ok(time) => Ok(Run { distance, time }),
        },
    }
}

/// The first digit is found: up to it there is none, and a text without a
/// digit is searched to its end.
pub proof fn lemma_first_digit(s: Seq<char>, from: int)
    requires
        0 <= from <= s.len(),
    ensures
        from <= first_digit(s, from) <= s.len(),
        forall|i: int| from <= i < first_digit(s, from) ==> !is_digit(#[trigger] s[i]),
        first_digit(s, from) < s.len() ==> is_digit(s[first_digit(s, from)]),
    decreases s.len() - from,
{
    if from < s.len() && !is_digit(s[from]) {
        lemma_first_digit(s, from + 1);
    }
}

/// A distance has no match exactly where the text holds no digit.
pub proof fn lemma_distance_needs_a_digit(s: Seq<char>)
    ensures
        distance_of(s) == Err::<Length, ParseError>(ParseError::NoMatch) <==> forall|i: int|
            0 <= i < s.len() ==> !is_digit(#[trigger] s[i]),
{
    lemma_first_digit(s, 0);
}

/// A text without a digit is never read as a time, not even as no time at
/// all: it is empty.
pub proof fn lemma_time_needs_a_digit(s: Seq<char>)
    requires
        forall|i: int| 0 <= i < s.len() ==> !is_digit(#[trigger] s[i]),
    ensures
        duration_of(s) == Err::<Duration, ParseError>(ParseError::Empty),
{
}

/// A time fails as empty or as a bad number, never otherwise.
pub proof fn lemma_time_errors(s: Seq<char>)
    ensures
        duration_of(s) != Err::<Duration, ParseError>(ParseError::NoMatch),
        duration_of(s) != Err::<Duration, ParseError>(ParseError::BadUnit),
{
}

/// A distance fails as a bad unit only where its numeral is within range,
/// and never as empty.
pub proof fn lemma_distance_errors(s: Seq<char>)
    ensures
        distance_of(s) != Err::<Length, ParseError>(ParseError::Empty),
        distance_of(s) == Err::<Length, ParseError>(ParseError::BadUnit) ==> first_digit(s, 0)
            < s.len() && numeral_micro(s, first_digit(s, 0)) <= u64::MAX,
{
}

} // verus!
