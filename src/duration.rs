//! Timestamps of the form `HH:MM:SS.ff`, read as a whole number of
//! microseconds.
//!
//! Each of the three colon-separated fields is a non-negative decimal number:
//! digits, optionally with one `.` and more digits, with at least one digit in
//! all. Fractional digits past the sixth are below a microsecond and are not
//! read.
use vstd::prelude::*;
use vstd::string::StringSliceAdditionalSpecFns;
use crate::text::{index_of_from, lemma_index_of_from, position_from};

verus! {

/// A whole part at or above this bound puts any timestamp out of `u64` range.
const WHOLE_CAP: u64 = 100_000_000_000_000;

/// An ASCII decimal digit.
pub open spec fn is_digit(b: u8) -> bool {
    48 <= b <= 57
}

/// Every byte is an ASCII decimal digit.
pub open spec fn all_digits(s: Seq<u8>) -> bool {
    forall|i: int| 0 <= i < s.len() ==> is_digit(#[trigger] s[i])
}

/// The number written by the decimal digits `s` (0 for no digits).
pub open spec fn digits_value(s: Seq<u8>) -> int
    decreases s.len(),
{
    if s.len() == 0 {
        0
    } else {
        digits_value(s.drop_last()) * 10 + (s.last() - 48)
    }
}

/// The first `n` fractional digits `s` as a whole number of `10^-n` units,
/// missing digits counting as zeros.
pub open spec fn fraction_units(s: Seq<u8>, n: nat) -> int
    decreases n,
{
    if n == 0 {
        0
    } else {
        fraction_units(s, (n - 1) as nat) * 10 + if n - 1 < s.len() {
            s[n - 1] - 48
        } else {
            0
        }
    }
}

/// The digits before the `.` of a field (all of it when it has none).
pub open spec fn whole_part(f: Seq<u8>) -> Seq<u8> {
    f.take(index_of_from(f, 46, 0))
}

/// The digits after the first `.` of a field (none when it has none).
pub open spec fn fraction_part(f: Seq<u8>) -> Seq<u8> {
    let d = index_of_from(f, 46, 0);
    if d < f.len() {
        f.skip(d + 1)
    } else {
        Seq::empty()
    }
}

/// A field is a non-negative decimal: digits with at most one `.`, and at
/// least one digit.
pub open spec fn is_decimal(f: Seq<u8>) -> bool {
    &&& all_digits(whole_part(f))
    &&& all_digits(fraction_part(f))
    &&& whole_part(f).len() + fraction_part(f).len() > 0
}

/// The value of a decimal field in millionths of its unit.
pub open spec fn decimal_millionths(f: Seq<u8>) -> int {
    digits_value(whole_part(f)) * 1_000_000 + fraction_units(fraction_part(f), 6)
}

/// The positions of the two colons of a timestamp, when it has exactly two.
pub open spec fn colon_positions(s: Seq<u8>) -> Option<(int, int)> {
    let a = index_of_from(s, 58, 0);
    let b = index_of_from(s, 58, a + 1);
    if a < s.len() && b < s.len() && index_of_from(s, 58, b + 1) == s.len() {
        Some((a, b))
    } else {
        None
    }
}

/// The three fields of a timestamp, when it has exactly three.
pub open spec fn timestamp_fields(s: Seq<u8>) -> Option<(Seq<u8>, Seq<u8>, Seq<u8>)> {
    match colon_positions(s) {
        Some((a, b)) => Some((s.take(a), s.subrange(a + 1, b), s.skip(b + 1))),
        None => None,
    }
}

/// What the timestamp `s` denotes, in microseconds: `hours * 3600 +
/// minutes * 60 + seconds`, or `None` when `s` is malformed.
pub open spec fn timestamp_micros(s: Seq<u8>) -> Option<int> {
    match timestamp_fields(s) {
        Some((h, m, sec)) => if is_decimal(h) && is_decimal(m) && is_decimal(sec) {
            Some(decimal_millionths(h) * 3600 + decimal_millionths(m) * 60 + decimal_millionths(
                sec,
            ))
        } else {
            None
        },
        None => None,
    }
}

/// The result of reading a timestamp: its microseconds when it is well formed
/// and they fit in a `u64`.
pub open spec fn parsed_timestamp(s: Seq<u8>) -> Option<int> {
    match timestamp_micros(s) {
        Some(v) => if v <= u64::MAX {
            Some(v)
        } else {
            None
        },
        None => None,
    }
}

proof fn lemma_digits_value_step(s: Seq<u8>, i: int)
    requires
        0 <= i < s.len(),
    ensures
        digits_value(s.take(i + 1)) == digits_value(s.take(i)) * 10 + (s[i] - 48),
{
    assert(s.take(i + 1).drop_last() =~= s.take(i));
}

proof fn lemma_digits_value_nonneg(s: Seq<u8>)
    requires
        all_digits(s),
    ensures
        digits_value(s) >= 0,
    decreases s.len(),
{
    if s.len() > 0 {
        assert(all_digits(s.drop_last()));
        lemma_digits_value_nonneg(s.drop_last());
    }
}

proof fn lemma_fraction_units_bound(s: Seq<u8>, n: nat, bound: int)
    requires
        all_digits(s),
        0 <= fraction_units(s, n) < bound,
    ensures
        0 <= fraction_units(s, n + 1) < bound * 10,
{
    let d: int = if n < s.len() { s[n as int] - 48 } else { 0 };
    assert(0 <= d <= 9);
    assert(fraction_units(s, n + 1) == fraction_units(s, n) * 10 + d);
    assert(fraction_units(s, n) * 10 + d < bound * 10) by (nonlinear_arith)
        requires
            fraction_units(s, n) < bound,
            d <= 9,
    ;
}

/// The whole number written by `s`, capped at `WHOLE_CAP`, when `s` is all
/// digits.
fn capped_digits(s: &[u8]) -> (r: Option<u64>)
    ensures
        match r {
            Some(v) => all_digits(s@) && v == if digits_value(s@) < WHOLE_CAP {
                digits_value(s@)
            } else {
                WHOLE_CAP as int
            },
            None => !all_digits(s@),
        },
{
    let n: usize = s.len();
    let mut acc: u64 = 0;
    let mut i: usize = 0;
    while i < n
        invariant
            i <= n,
            n == s@.len(),
            all_digits(s@.take(i as int)),
            digits_value(s@.take(i as int)) >= 0,
            acc == if digits_value(s@.take(i as int)) < WHOLE_CAP {
                digits_value(s@.take(i as int))
            } else {
                WHOLE_CAP as int
            },
        decreases n - i,
    {
        let c: u8 = s[i];
        if c < 48 || c > 57 {
            return None;
        }
        let d: u64 = (c - 48) as u64;
        let ghost v: int = digits_value(s@.take(i as int));
        proof {
            lemma_digits_value_step(s@, i as int);
            assert(s@.take(i + 1) =~= s@.take(i as int).push(c));
        }
        if acc >= WHOLE_CAP {
            assert(v * 10 + d >= WHOLE_CAP) by (nonlinear_arith)
                requires
                    v >= WHOLE_CAP,
                    d >= 0,
            ;
        } else {
            let next: u64 = acc * 10 + d;
            acc = if next < WHOLE_CAP {
                next
            } else {
                WHOLE_CAP
            };
        }
        i += 1;
    }
    assert(s@.take(n as int) =~= s@);
    Some(acc)
}

/// The first six digits of `s`, as millionths, when `s` is all digits.
fn fraction_millionths(s: &[u8]) -> (r: Option<u64>)
    ensures
        match r {
            Some(v) => all_digits(s@) && v == fraction_units(s@, 6) && v < 1_000_000,
            None => !all_digits(s@),
        },
{
    let n: usize = s.len();
    let mut i: usize = 0;
    while i < n
        invariant
            i <= n,
            n == s@.len(),
            forall|j: int| 0 <= j < i ==> is_digit(#[trigger] s@[j]),
        decreases n - i,
    {
        if s[i] < 48 || s[i] > 57 {
            return None;
        }
        i += 1;
    }
    let mut acc: u64 = 0;
    let mut k: usize = 0;
    let mut bound: u64 = 1;
    while k < 6
        invariant
            k <= 6,
            n == s@.len(),
            all_digits(s@),
            acc == fraction_units(s@, k as nat),
            0 <= acc < bound,
            bound == if k == 0 {
                1u64
            } else if k == 1 {
                10
            } else if k == 2 {
                100
            } else if k == 3 {
                1000
            } else if k == 4 {
                10_000
            } else if k == 5 {
                100_000
            } else {
                1_000_000
            },
        decreases 6 - k,
    {
        proof {
            lemma_fraction_units_bound(s@, k as nat, bound as int);
        }
        let d: u64 = if k < n {
            (s[k] - 48) as u64
        } else {
            0
        };
        acc = acc * 10 + d;
        bound = bound * 10;
        k += 1;
    }
    Some(acc)
}

/// One field of a timestamp in millionths of its unit, its whole part capped
/// at `WHOLE_CAP`; `None` when it is no decimal.
fn field_millionths(f: &[u8]) -> (r: Option<u128>)
    ensures
        match r {
            Some(v) => is_decimal(f@) && v == (if digits_value(whole_part(f@)) < WHOLE_CAP {
                digits_value(whole_part(f@))
            } else {
                WHOLE_CAP as int
            }) * 1_000_000 + fraction_units(fraction_part(f@), 6) && v < (WHOLE_CAP + 1) * 1_000_000,
            None => !is_decimal(f@),
        },
{
    let n: usize = f.len();
    let d: usize = position_from(f, 46, 0);
    proof {
        lemma_index_of_from(f@, 46, 0);
    }
    let whole: &[u8] = &f[0..d];
    assert(whole@ =~= whole_part(f@));
    let fraction: &[u8] = if d < n {
        &f[d + 1..n]
    } else {
        &f[n..n]
    };
    assert(fraction@ =~= fraction_part(f@));
    if whole.len() == 0 && fraction.len() == 0 {
        return None;
    }
    let w: u64 = match capped_digits(whole) {
        Some(w) => w,
        None => return None,
    };
    let fr: u64 = match fraction_millionths(fraction) {
        Some(fr) => fr,
        None => return None,
    };
    Some(w as u128 * 1_000_000 + fr as u128)
}

/// Reads a timestamp `HH:MM:SS.ff` as microseconds.
///
/// Fails when there are not exactly three colon-separated fields, when a
/// field is no non-negative decimal, or when the total does not fit a `u64`.
pub fn parse_duration(duration: &str) -> (r: Result<u64, ()>)
    ensures
        match r {
            Ok(v) => parsed_timestamp(duration.spec_bytes()) == Some(v as int),
            Err(_) => parsed_timestamp(duration.spec_bytes()) is None,
        },
{
    parse_timestamp_bytes(duration.as_bytes())
}

/// Reads a timestamp given as bytes; see `parse_duration`.
pub fn parse_timestamp_bytes(s: &[u8]) -> (r: Result<u64, ()>)
    ensures
        match r {
            Ok(v) => parsed_timestamp(s@) == Some(v as int),
            Err(_) => parsed_timestamp(s@) is None,
        },
{
    let n: usize = s.len();
    let a: usize = position_from(s, 58, 0);
    proof {
        lemma_index_of_from(s@, 58, 0);
    }
    if a == n {
        return Err(());
    }
    let b: usize = position_from(s, 58, a + 1);
    proof {
        lemma_index_of_from(s@, 58, a + 1);
    }
    if b == n {
        return Err(());
    }
    let c: usize = position_from(s, 58, b + 1);
    if c != n {
        return Err(());
    }
    assert(colon_positions(s@) == Some((a as int, b as int)));
    let hours: &[u8] = &s[0..a];
    let minutes: &[u8] = &s[a + 1..b];
    let seconds: &[u8] = &s[b + 1..n];
    assert(hours@ =~= s@.take(a as int));
    assert(seconds@ =~= s@.skip(b + 1));
    let h: u128 = match field_millionths(hours) {
        Some(h) => h,
        None => return Err(()),
    };
    let m: u128 = match field_millionths(minutes) {
        Some(m) => m,
        None => return Err(()),
    };
    let sec: u128 = match field_millionths(seconds) {
        Some(sec) => sec,
        None => return Err(()),
    };
    let total: u128 = h * 3600 + m * 60 + sec;
    proof {
        lemma_capped_total(hours@, minutes@, seconds@, h as int, m as int, sec as int);
    }
    if total > u64::MAX as u128 {
        return Err(());
    }
    Ok(total as u64)
}

proof fn lemma_capped_field(f: Seq<u8>, v: int)
    requires
        is_decimal(f),
        v == (if digits_value(whole_part(f)) < WHOLE_CAP {
            digits_value(whole_part(f))
        } else {
            WHOLE_CAP as int
        }) * 1_000_000 + fraction_units(fraction_part(f), 6),
    ensures
        0 <= v <= decimal_millionths(f),
        v < WHOLE_CAP * 1_000_000 ==> v == decimal_millionths(f),
{
    lemma_digits_value_nonneg(whole_part(f));
    assert(fraction_units(fraction_part(f), 0) == 0);
    lemma_fraction_units_bound(fraction_part(f), 0, 1);
    lemma_fraction_units_bound(fraction_part(f), 1, 10);
    lemma_fraction_units_bound(fraction_part(f), 2, 100);
    lemma_fraction_units_bound(fraction_part(f), 3, 1000);
    lemma_fraction_units_bound(fraction_part(f), 4, 10_000);
    lemma_fraction_units_bound(fraction_part(f), 5, 100_000);
}

proof fn lemma_decimal_nonneg(f: Seq<u8>)
    requires
        is_decimal(f),
    ensures
        decimal_millionths(f) >= 0,
{
    lemma_digits_value_nonneg(whole_part(f));
    lemma_fraction_units_bound(fraction_part(f), 0, 1);
    lemma_fraction_units_bound(fraction_part(f), 1, 10);
    lemma_fraction_units_bound(fraction_part(f), 2, 100);
    lemma_fraction_units_bound(fraction_part(f), 3, 1000);
    lemma_fraction_units_bound(fraction_part(f), 4, 10_000);
    lemma_fraction_units_bound(fraction_part(f), 5, 100_000);
}

/// A timestamp never denotes a negative time.
pub proof fn lemma_parsed_timestamp_nonneg(s: Seq<u8>)
    ensures
        parsed_timestamp(s) matches Some(v) ==> v >= 0,
{
    if let Some((h, m, sec)) = timestamp_fields(s) {
        if is_decimal(h) && is_decimal(m) && is_decimal(sec) {
            lemma_decimal_nonneg(h);
            lemma_decimal_nonneg(m);
            lemma_decimal_nonneg(sec);
        }
    }
}

/// A total computed from capped fields is the true total whenever it fits a
/// `u64`, and exceeds `u64::MAX` whenever the true one does.
proof fn lemma_capped_total(h: Seq<u8>, m: Seq<u8>, s: Seq<u8>, hv: int, mv: int, sv: int)
    requires
        is_decimal(h),
        is_decimal(m),
        is_decimal(s),
        hv == (if digits_value(whole_part(h)) < WHOLE_CAP {
            digits_value(whole_part(h))
        } else {
            WHOLE_CAP as int
        }) * 1_000_000 + fraction_units(fraction_part(h), 6),
        mv == (if digits_value(whole_part(m)) < WHOLE_CAP {
            digits_value(whole_part(m))
        } else {
            WHOLE_CAP as int
        }) * 1_000_000 + fraction_units(fraction_part(m), 6),
        sv == (if digits_value(whole_part(s)) < WHOLE_CAP {
            digits_value(whole_part(s))
        } else {
            WHOLE_CAP as int
        }) * 1_000_000 + fraction_units(fraction_part(s), 6),
    ensures
        hv * 3600 + mv * 60 + sv <= u64::MAX ==> hv * 3600 + mv * 60 + sv == decimal_millionths(h)
            * 3600 + decimal_millionths(m) * 60 + decimal_millionths(s),
        hv * 3600 + mv * 60 + sv > u64::MAX ==> decimal_millionths(h) * 3600 + decimal_millionths(
            m,
        ) * 60 + decimal_millionths(s) > u64::MAX,
{
    lemma_capped_field(h, hv);
    lemma_capped_field(m, mv);
    lemma_capped_field(s, sv);
}

} // verus!
