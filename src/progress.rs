//! Turning the transcoder's `time=` lines into a percentage of the total
//! duration.
use vstd::prelude::*;
use crate::duration::{lemma_parsed_timestamp_nonneg, parse_timestamp_bytes, parsed_timestamp};
use crate::text::{find, first_occurrence, lemma_find_from_first, occurs_at};

verus! {

/// A full percentage in hundredths of a percent: `10_000` stands for 100 %.
pub const FULL_PERCENT: u32 = 10_000;

/// The marker `time=` that precedes the elapsed time in a progress line.
pub open spec fn time_marker() -> Seq<u8> {
    seq![116u8, 105, 109, 101, 61]
}

/// `elapsed / total * 100`, in hundredths of a percent, rounded down and
/// clamped to `FULL_PERCENT`.
pub open spec fn percent_of(elapsed: int, total: int) -> int {
    let p = elapsed * 10_000 / total;
    if p > 10_000 {
        10_000
    } else {
        p
    }
}

/// The first index at or after `k` holding a space or a comma, or the length
/// of `s`.
pub open spec fn token_end(s: Seq<u8>, k: int) -> int
    decreases s.len() - k,
{
    if k >= s.len() {
        s.len() as int
    } else if s[k] == 32 || s[k] == 44 {
        k
    } else {
        token_end(s, k + 1)
    }
}

/// The timestamp text of a progress line: from just after the first `time=`
/// up to the next space or comma, or to the end of the line.
pub open spec fn elapsed_text(line: Seq<u8>) -> Option<Seq<u8>> {
    match first_occurrence(line, time_marker()) {
        Some(i) => Some(line.subrange(i + 5, token_end(line, i + 5))),
        None => None,
    }
}

/// The progress that a diagnostic line reports against `total` microseconds:
/// `None` when it has no `time=` marker or the timestamp after it is
/// unreadable.
pub open spec fn line_progress(line: Seq<u8>, total: int) -> Option<int> {
    match elapsed_text(line) {
        Some(t) => match parsed_timestamp(t) {
            Some(e) => Some(percent_of(e, total)),
            None => None,
        },
        None => None,
    }
}

/// The percentage (in hundredths) that `elapsed` is of `total`, clamped to
/// `FULL_PERCENT`.
pub fn progress_percent(elapsed: u64, total: u64) -> (r: u32)
    requires
        total > 0,
    ensures
        r == percent_of(elapsed as int, total as int),
        r <= FULL_PERCENT,
        elapsed >= total ==> r == FULL_PERCENT,
{
    let p: u128 = elapsed as u128 * 10_000 / total as u128;
    proof {
        if elapsed >= total {
            assert(elapsed as int * 10_000 / total as int >= 10_000) by (nonlinear_arith)
                requires
                    elapsed >= total,
                    total > 0,
            ;
        }
    }
    if p > 10_000 {
        FULL_PERCENT
    } else {
        p as u32
    }
}

/// The end of the token that starts at `from`: the next space or comma, or
/// the end of `s`.
fn token_end_from(s: &[u8], from: usize) -> (r: usize)
    requires
        from <= s@.len(),
    ensures
        r == token_end(s@, from as int),
        from <= r <= s@.len(),
{
    let n: usize = s.len();
    let mut i: usize = from;
    while i < n
        invariant
            from <= i <= n,
            n == s@.len(),
            token_end(s@, from as int) == token_end(s@, i as int),
        decreases n - i,
    {
        if s[i] == 32 || s[i] == 44 {
            return i;
        }
        i += 1;
    }
    i
}

/// The progress that one diagnostic line reports, given the total duration in
/// microseconds. A line without a `time=` marker, or whose timestamp cannot be
/// read, reports nothing.
pub fn estimate_progress(line: &[u8], total: u64) -> (r: Option<u32>)
    requires
        total > 0,
    ensures
        match r {
            Some(p) => line_progress(line@, total as int) == Some(p as int),
            None => line_progress(line@, total as int) is None,
        },
        first_occurrence(line@, time_marker()) is None ==> r is None,
        r matches Some(p) ==> p <= FULL_PERCENT,
{
    let n: usize = line.len();
    let marker: [u8; 5] = [116, 105, 109, 101, 61];
    let pat: &[u8] = marker.as_slice();
    assert(pat@ =~= time_marker());
    let i: usize = match find(line, pat) {
        Some(i) => i,
        None => return None,
    };
    proof {
        lemma_find_from_first(line@, time_marker(), 0);
        assert(occurs_at(line@, time_marker(), i as int));
        assert(time_marker().len() == 5);
    }
    let start: usize = i + 5;
    let end: usize = token_end_from(line, start);
    let stamp: &[u8] = &line[start..end];
    match parse_timestamp_bytes(stamp) {
        Ok(elapsed) => Some(progress_percent(elapsed, total)),
        Err(_) => None,
    }
}

/// Progress never goes back: a later elapsed time gives at least the same
/// percentage of a given total.
pub proof fn lemma_percent_monotonic(earlier: int, later: int, total: int)
    requires
        0 <= earlier <= later,
        total > 0,
    ensures
        percent_of(earlier, total) <= percent_of(later, total),
{
    assert(earlier * 10_000 <= later * 10_000);
    vstd::arithmetic::div_mod::lemma_div_is_ordered(earlier * 10_000, later * 10_000, total);
}

/// Of two progress lines against the same total, the one with the later
/// elapsed time reports at least the same percentage.
pub proof fn lemma_line_progress_monotonic(
    first: Seq<u8>,
    second: Seq<u8>,
    total: int,
    e1: int,
    e2: int,
)
    requires
        total > 0,
        elapsed_text(first) matches Some(t) && parsed_timestamp(t) == Some(e1),
        elapsed_text(second) matches Some(t) && parsed_timestamp(t) == Some(e2),
        e1 <= e2,
    ensures
        line_progress(first, total) == Some(percent_of(e1, total)),
        line_progress(second, total) == Some(percent_of(e2, total)),
        percent_of(e1, total) <= percent_of(e2, total),
{
    if let Some(t) = elapsed_text(first) {
        lemma_parsed_timestamp_nonneg(t);
    }
    lemma_percent_monotonic(e1, e2, total);
}

/// Once the elapsed time reaches the total, the percentage is exactly full,
/// and it never exceeds full.
pub proof fn lemma_percent_clamped(elapsed: int, total: int)
    requires
        0 <= elapsed,
        total > 0,
    ensures
        percent_of(elapsed, total) <= 10_000,
        elapsed >= total ==> percent_of(elapsed, total) == 10_000,
        percent_of(elapsed, total) >= 0,
{
    assert(elapsed * 10_000 >= 0) by (nonlinear_arith)
        requires
            elapsed >= 0,
    ;
    if elapsed >= total {
        assert(elapsed * 10_000 / total >= 10_000) by (nonlinear_arith)
            requires
                elapsed >= total,
                total > 0,
        ;
    }
    vstd::arithmetic::div_mod::lemma_div_pos_is_pos(elapsed * 10_000, total);
}

} // verus!
