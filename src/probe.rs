//! Reading the total duration out of the transcoder's probe output.
//!
//! The probe prints a line such as
//! ` Duration: 00:04:36.10, start: 0.000000, bitrate: 2018 kb/s`; the nine
//! bytes that start ten bytes after `Duration: ` are the total duration.
use vstd::prelude::*;
use crate::duration::{parse_timestamp_bytes, parsed_timestamp};
use crate::text::{
    find, first_occurrence, index_of_from, lemma_find_from_first, lemma_index_of_from,
    occurs_at, position_from,
};

verus! {

/// Why no total duration came out of the probe.
#[derive(Debug, Clone, Copy, PartialEq, Eq, Structural)]
pub enum ProbeError {
    /// No line holds `Duration:`.
    NoDurationLine,
    /// The first line holding `Duration:` has no `Duration: ` (with a space).
    NoDurationMarker,
    /// The timestamp after the marker is cut short, malformed, or zero.
    UnreadableDuration,
}

/// `Duration:`, which marks the line that gives the total duration.
pub open spec fn duration_label() -> Seq<u8> {
    seq![68u8, 117, 114, 97, 116, 105, 111, 110, 58]
}

/// `Duration: `, after which the timestamp follows.
pub open spec fn duration_marker() -> Seq<u8> {
    duration_label().push(32)
}

/// The index where the line holding index `k` starts: just after the last
/// newline before `k`, or 0.
pub open spec fn line_start(s: Seq<u8>, k: int) -> int
    decreases k,
{
    if k <= 0 {
        0
    } else if s[k - 1] == 10 {
        k
    } else {
        line_start(s, k - 1)
    }
}

/// The index where the line holding index `k` ends: at the next newline, less
/// a carriage return just before it, or at the end of `s`.
pub open spec fn line_end(s: Seq<u8>, k: int) -> int {
    let e = index_of_from(s, 10, k);
    if e < s.len() && e > line_start(s, k) && s[e - 1] == 13 {
        e - 1
    } else {
        e
    }
}

/// The first line that holds `Duration:`, without its line ending.
pub open spec fn duration_line(s: Seq<u8>) -> Option<Seq<u8>> {
    match first_occurrence(s, duration_label()) {
        Some(i) => Some(s.subrange(line_start(s, i), line_end(s, i))),
        None => None,
    }
}

/// The total duration, in microseconds, that the probe output `s` reports.
pub open spec fn probed_duration(s: Seq<u8>) -> Result<int, ProbeError> {
    match duration_line(s) {
        None => Err(ProbeError::NoDurationLine),
        Some(l) => match first_occurrence(l, duration_marker()) {
            None => Err(ProbeError::NoDurationMarker),
            Some(p) => if p + 19 <= l.len() {
                match parsed_timestamp(l.subrange(p + 10, p + 19)) {
                    Some(v) => if v > 0 {
                        Ok(v)
                    } else {
                        Err(ProbeError::UnreadableDuration)
                    },
                    None => Err(ProbeError::UnreadableDuration),
                }
            } else {
                Err(ProbeError::UnreadableDuration)
            },
        },
    }
}

fn line_start_of(s: &[u8], k: usize) -> (r: usize)
    requires
        k <= s@.len(),
    ensures
        r == line_start(s@, k as int),
        r <= k,
{
    let mut i: usize = k;
    while i > 0
        invariant
            i <= k <= s@.len(),
            line_start(s@, k as int) == line_start(s@, i as int),
        decreases i,
    {
        if s[i - 1] == 10 {
            return i;
        }
        i -= 1;
    }
    0
}

/// The total duration in microseconds that the probe output reports, from
/// the first line holding `Duration:`.
pub fn total_from_probe(output: &[u8]) -> (r: Result<u64, ProbeError>)
    ensures
        match r {
            Ok(v) => probed_duration(output@) == Ok::<int, ProbeError>(v as int),
            Err(e) => probed_duration(output@) == Err::<int, ProbeError>(e),
        },
        r matches Ok(v) ==> v > 0,
{
    let n: usize = output.len();
    let label: [u8; 10] = [68, 117, 114, 97, 116, 105, 111, 110, 58, 32];
    let marker: &[u8] = label.as_slice();
    let bare: &[u8] = &marker[0..9];
    assert(bare@ =~= duration_label());
    assert(marker@ =~= duration_marker());
    let i: usize = match find(output, bare) {
        Some(i) => i,
        None => return Err(ProbeError::NoDurationLine),
    };
    proof {
        lemma_find_from_first(output@, duration_label(), 0);
        assert(occurs_at(output@, duration_label(), i as int));
        lemma_index_of_from(output@, 10, i as int);
    }
    let start: usize = line_start_of(output, i);
    let newline: usize = position_from(output, 10, i);
    let end: usize = if newline < n && newline > start && output[newline - 1] == 13 {
        newline - 1
    } else {
        newline
    };
    let line: &[u8] = &output[start..end];
    assert(line@ =~= output@.subrange(line_start(output@, i as int), line_end(output@, i as int)));
    let m: usize = line.len();
    let p: usize = match find(line, marker) {
        Some(p) => p,
        None => return Err(ProbeError::NoDurationMarker),
    };
    if p > m || m - p < 19 {
        return Err(ProbeError::UnreadableDuration);
    }
    let stamp: &[u8] = &line[p + 10..p + 19];
    match parse_timestamp_bytes(stamp) {
        Ok(v) => if v > 0 {
            Ok(v)
        } else {
            Err(ProbeError::UnreadableDuration)
        },
        Err(_) => Err(ProbeError::UnreadableDuration),
    }
}

} // verus!
