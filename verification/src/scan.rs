//! Decimal numerals in a text: where one ends and what it amounts to in
//! millionths.
//!
//! A numeral is a run of digits, optionally followed by a point and a
//! further, possibly empty, run of digits. There is no sign and no exponent.
//! Decimal places beyond the sixth are dropped.

use vstd::prelude::*;
use crate::text::{
    CharClass, decimal_value, digit_value, is_digit, lemma_value_grows, run_end, scan_run,
};

verus! {

/// A numeral read from a text.
#[derive(Clone, Copy, Debug, PartialEq, Eq, Structural)]
pub(crate) struct Numeral {
    /// Its value in millionths; `None` where that is beyond 64 bits.
    pub micro: Option<u64>,
    /// The position after its last character.
    pub end: usize,
}

/// `n` itself where it fits in 64 bits.
pub open spec fn fits(n: nat) -> Option<u64> {
    if n <= u64::MAX {
        Some(n as u64)
    } else {
        None
    }
}

/// Where the digits before the point end, for a numeral that starts at `from`.
pub open spec fn whole_end(s: Seq<char>, from: int) -> int {
    run_end(s, from, CharClass::Digit)
}

/// Whether a point follows the digits of the numeral that starts at `from`.
pub open spec fn has_point(s: Seq<char>, from: int) -> bool {
    whole_end(s, from) < s.len() && s[whole_end(s, from)] == '.'
}

/// Where the numeral that starts at `from` ends.
pub open spec fn numeral_end(s: Seq<char>, from: int) -> int {
    if has_point(s, from) {
        run_end(s, whole_end(s, from) + 1, CharClass::Digit)
    } else {
        whole_end(s, from)
    }
}

/// The digits before the point.
pub open spec fn whole_part(s: Seq<char>, from: int) -> Seq<char> {
    s.subrange(from, whole_end(s, from))
}

/// The digits after the point; empty where there is no point.
pub open spec fn fraction_part(s: Seq<char>, from: int) -> Seq<char> {
    if has_point(s, from) {
        s.subrange(whole_end(s, from) + 1, numeral_end(s, from))
    } else {
        Seq::empty()
    }
}

/// The first `places` decimal places of the fraction `f` read as one number,
/// a missing place counting as zero.
pub open spec fn fraction_scaled(f: Seq<char>, places: nat) -> nat
    decreases places,
{
    if places == 0 {
        0
    } else {
        fraction_scaled(f, (places - 1) as nat) * 10 + (if places - 1 < f.len() {
            digit_value(f[places - 1])
        } else {
            0
        })
    }
}

/// The value in millionths of the numeral that starts at `from`.
pub open spec fn numeral_micro(s: Seq<char>, from: int) -> nat {
    decimal_value(whole_part(s, from)) * 1_000_000 + fraction_scaled(fraction_part(s, from), 6)
}

/// The number that a digit stands for.
pub(crate) fn digit_of(c: char) -> (d: u64)
    requires
        is_digit(c),
    ensures
        d == digit_value(c),
        d <= 9,
{
    ((c as u32) - 48) as u64
}

/// The value of the digits of `t` from `from` up to `to`, where it is at most `cap`.
pub(crate) fn read_digits(t: &Vec<char>, from: usize, to: usize, cap: u64) -> (r: Option<u64>)
    requires
        from <= to <= t@.len(),
        forall|i: int| from <= i < to ==> is_digit(#[trigger] t@[i]),
        cap <= 1_000_000_000_000_000_000,
    ensures
        r == (if decimal_value(t@.subrange(from as int, to as int)) <= cap {
            Some(decimal_value(t@.subrange(from as int, to as int)) as u64)
        } else {
            None
        }),
{
    let mut acc: u64 = 0;
    let mut i: usize = from;
    assert(t@.subrange(from as int, from as int) =~= Seq::<char>::empty());
    while i < to
        invariant
            from <= i <= to <= t@.len(),
            forall|k: int| from <= k < to ==> is_digit(#[trigger] t@[k]),
            cap <= 1_000_000_000_000_000_000,
            acc <= cap,
            acc == decimal_value(t@.subrange(from as int, i as int)),
        decreases to - i,
    {
        let d: u64 = digit_of(t[i]);
        proof {
            let next = t@.subrange(from as int, i + 1);
            assert(next.drop_last() =~= t@.subrange(from as int, i as int));
            assert(next.last() == t@[i as int]);
            lemma_value_grows(t@, from as int, i + 1, to as int);
        }
        acc = acc * 10 + d;
        if acc > cap {
            return None;
        }
        i += 1;
    }
    Some(acc)
}

/// The first six decimal places of the digits of `t` from `from` up to `to`.
pub(crate) fn read_fraction(t: &Vec<char>, from: usize, to: usize) -> (r: u64)
    requires
        from <= to <= t@.len(),
        forall|i: int| from <= i < to ==> is_digit(#[trigger] t@[i]),
    ensures
        r == fraction_scaled(t@.subrange(from as int, to as int), 6),
        r <= 999_999,
{
    let ghost f = t@.subrange(from as int, to as int);
    let mut acc: u64 = 0;
    let mut bound: u64 = 1;
    let mut j: usize = 0;
    while j < 6
        invariant
            from <= to <= t@.len(),
            forall|i: int| from <= i < to ==> is_digit(#[trigger] t@[i]),
            f == t@.subrange(from as int, to as int),
            j <= 6,
            acc < bound,
            bound <= 1_000_000,
            j < 6 ==> bound <= 100_000,
            j == 6 ==> bound == 1_000_000,
            j == 0 ==> bound == 1,
            j == 1 ==> bound == 10,
            j == 2 ==> bound == 100,
            j == 3 ==> bound == 1_000,
            j == 4 ==> bound == 10_000,
            j == 5 ==> bound == 100_000,
            acc == fraction_scaled(f, j as nat),
        decreases 6 - j,
    {
        let d: u64 = if j < to - from {
            digit_of(t[from + j])
        } else {
            0
        };
        acc = acc * 10 + d;
        bound = bound * 10;
        j += 1;
    }
    acc
}

/// Reads the numeral of `t` that starts at `from`.
pub(crate) fn read_numeral(t: &Vec<char>, from: usize) -> (r: Numeral)
    requires
        from <= t@.len(),
    ensures
        r.end == numeral_end(t@, from as int),
        r.micro == fits(numeral_micro(t@, from as int)),
        from <= r.end <= t@.len(),
{
    let whole_to: usize = scan_run(t, from, CharClass::Digit);
    let end: usize = if whole_to < t.len() && t[whole_to] == '.' {
        scan_run(t, whole_to + 1, CharClass::Digit)
    } else {
        whole_to
    };
    let fraction: u64 = if whole_to < end {
        read_fraction(t, whole_to + 1, end)
    } else {
        proof {
            reveal_with_fuel(fraction_scaled, 7);
        }
        0
    };
    let micro: Option<u64> = match read_digits(t, from, whole_to, 18_446_744_073_709) {
        Some(whole) => {
            let total: u128 = (whole as u128) * 1_000_000 + (fraction as u128);
            if total <= 0xffff_ffff_ffff_ffff {
                Some(total as u64)
            } else {
                None
            }
        },
        None => None,
    };
    Numeral { micro, end }
}

} // verus!
