//! What an interval is: the mathematical model that the scanner is held to.
//!
//! An interval starts at a crossing index, the first sample whose speed
//! reaches the limit, and ends just before the first drop, the first sample
//! at which the mean speed since the crossing index is below the limit.

use crate::record::Record;
use crate::speed::Speed;
use std::ops::Range;
use vstd::prelude::*;

verus! {

/// A half-open run of sample indices, `start` up to but excluding `end`.
pub struct Span {
    pub start: int,
    pub end: int,
}

/// The span that an index range denotes.
pub open spec fn span(r: Range<usize>) -> Span {
    Span { start: r.start as int, end: r.end as int }
}

/// The spans that a list of index ranges denotes, in the same order.
pub open spec fn spans(ranges: Seq<Range<usize>>) -> Seq<Span> {
    ranges.map_values(|r: Range<usize>| span(r))
}

/// Sum of the canonical speeds of the samples `from..to`.
pub open spec fn speed_sum(s: Seq<Record>, from: int, to: int) -> int
    decreases to - from,
{
    if to <= from {
        0
    } else {
        speed_sum(s, from, to - 1) + s[to - 1].speed.canonical()
    }
}

/// Sample `i` is at least as fast as `limit`.
pub open spec fn reaches(s: Seq<Record>, i: int, limit: Speed) -> bool {
    s[i].speed.canonical() >= limit.canonical()
}

/// The mean speed of the samples `start..=j` is below `limit`.
///
/// Stated without division: the sum of `j - start + 1` speeds is less than
/// that many times the limit.
pub open spec fn average_below(s: Seq<Record>, start: int, j: int, limit: Speed) -> bool {
    speed_sum(s, start, j + 1) < limit.canonical() * (j - start + 1)
}

/// No sample from `from` on reaches `limit`.
pub open spec fn never_reaches(s: Seq<Record>, from: int, limit: Speed) -> bool {
    forall|k: int| from <= k < s.len() ==> !reaches(s, k, limit)
}

/// `i` is the crossing index for a scan from `from`: the first sample at or
/// after `from` that reaches `limit`.
pub open spec fn is_crossing(s: Seq<Record>, from: int, i: int, limit: Speed) -> bool {
    &&& from <= i < s.len()
    &&& reaches(s, i, limit)
    &&& forall|k: int| from <= k < i ==> !reaches(s, k, limit)
}

/// The mean speed from `start` stays at or above `limit` to the last sample.
pub open spec fn never_drops(s: Seq<Record>, start: int, limit: Speed) -> bool {
    forall|j: int| start <= j < s.len() ==> !average_below(s, start, j, limit)
}

/// `j` is the first sample at or after `start` that drags the mean speed
/// from `start` below `limit`.
pub open spec fn is_first_drop(s: Seq<Record>, start: int, j: int, limit: Speed) -> bool {
    &&& start <= j < s.len()
    &&& average_below(s, start, j, limit)
    &&& forall|k: int| start <= k < j ==> !average_below(s, start, k, limit)
}

/// Index of the first sample at or after `from` that reaches `limit`, or the
/// number of samples if there is none.
pub open spec fn first_reaching(s: Seq<Record>, from: int, limit: Speed) -> int
    decreases s.len() - from,
{
    if from >= s.len() {
        s.len() as int
    } else if reaches(s, from, limit) {
        from
    } else {
        first_reaching(s, from + 1, limit)
    }
}

/// Index of the first sample at or after `from` at which the mean speed from
/// `start` is below `limit`, or the number of samples if there is none.
pub open spec fn first_drop(s: Seq<Record>, start: int, from: int, limit: Speed) -> int
    decreases s.len() - from,
{
    if from >= s.len() {
        s.len() as int
    } else if average_below(s, start, from, limit) {
        from
    } else {
        first_drop(s, start, from + 1, limit)
    }
}

/// The interval that a scan from `from` finds: it starts at the crossing
/// index and ends just before the first drop. An interval whose end is not
/// observed before the samples run out is no interval.
pub open spec fn next_interval(s: Seq<Record>, from: int, limit: Speed) -> Option<Span> {
    let start = first_reaching(s, from, limit);
    let end = first_drop(s, start, start, limit);
    if end < s.len() {
        Some(Span { start, end })
    } else {
        None
    }
}

/// `first_reaching` is the least index from `from` on that reaches `limit`.
pub proof fn lemma_first_reaching(s: Seq<Record>, from: int, limit: Speed)
    requires
        from <= s.len(),
    ensures
        from <= first_reaching(s, from, limit) <= s.len(),
        first_reaching(s, from, limit) < s.len() ==> is_crossing(
            s,
            from,
            first_reaching(s, from, limit),
            limit,
        ),
        first_reaching(s, from, limit) == s.len() ==> never_reaches(s, from, limit),
    decreases s.len() - from,
{
    if from < s.len() && !reaches(s, from, limit) {
        lemma_first_reaching(s, from + 1, limit);
    }
}

/// `first_drop` is the least index from `from` on at which the mean speed
/// from `start` is below `limit`.
pub proof fn lemma_first_drop(s: Seq<Record>, start: int, from: int, limit: Speed)
    requires
        from <= s.len(),
    ensures
        from <= first_drop(s, start, from, limit) <= s.len(),
        first_drop(s, start, from, limit) < s.len() ==> average_below(
            s,
            start,
            first_drop(s, start, from, limit),
            limit,
        ),
        forall|k: int|
            from <= k < first_drop(s, start, from, limit) ==> !average_below(s, start, k, limit),
    decreases s.len() - from,
{
    if from < s.len() && !average_below(s, start, from, limit) {
        lemma_first_drop(s, start, from + 1, limit);
    }
}

/// The mean over one sample is that sample's speed: it is below the limit
/// exactly when the sample does not reach it.
pub proof fn lemma_single_sample(s: Seq<Record>, i: int, limit: Speed)
    ensures
        average_below(s, i, i, limit) <==> !reaches(s, i, limit),
{
    assert(speed_sum(s, i, i + 1) == s[i].speed.canonical()) by {
        assert(speed_sum(s, i, i) == 0);
    }
    assert(limit.canonical() * (i - i + 1) == limit.canonical()) by (nonlinear_arith);
}

/// A scan from `from` finds `found` if it starts at the crossing index and
/// ends at the first drop.
pub proof fn lemma_next_interval_is(s: Seq<Record>, from: int, found: Span, limit: Speed)
    requires
        is_crossing(s, from, found.start, limit),
        is_first_drop(s, found.start, found.end, limit),
    ensures
        next_interval(s, from, limit) == Some(found),
{
    lemma_first_reaching(s, from, limit);
    lemma_first_drop(s, found.start, found.start, limit);
}

/// A scan from `from` finds nothing if no sample reaches the limit, or if
/// the mean speed from the crossing index never drops below the limit.
pub proof fn lemma_no_next_interval(s: Seq<Record>, from: int, limit: Speed)
    requires
        never_reaches(s, from, limit) || exists|i: int|
            is_crossing(s, from, i, limit) && never_drops(s, i, limit),
    ensures
        next_interval(s, from, limit) is None,
{
    if from <= s.len() {
        let start = first_reaching(s, from, limit);
        lemma_first_reaching(s, from, limit);
        lemma_first_drop(s, start, start, limit);
    }
}

/// What a scan from `from` finds, and when it finds nothing.
///
/// The interval found starts at the crossing index and ends at the first
/// drop; it is not empty and lies at or after `from`. Nothing is found only
/// if no sample reaches the limit, or the mean speed from the crossing index
/// never drops below it.
pub proof fn lemma_next_interval(s: Seq<Record>, from: int, limit: Speed)
    ensures
        match next_interval(s, from, limit) {
            Some(found) => {
                &&& from <= found.start < found.end < s.len()
                &&& is_crossing(s, from, found.start, limit)
                &&& is_first_drop(s, found.start, found.end, limit)
            },
            None => {
                ||| never_reaches(s, from, limit)
                ||| exists|i: int| is_crossing(s, from, i, limit) && never_drops(s, i, limit)
            },
        },
{
    if from <= s.len() {
        let start = first_reaching(s, from, limit);
        lemma_first_reaching(s, from, limit);
        lemma_first_drop(s, start, start, limit);
        if start < s.len() {
            lemma_single_sample(s, start, limit);
            if first_drop(s, start, start, limit) == s.len() {
                assert(never_drops(s, start, limit));
            }
        }
    }
}

/// Every interval of a scan that starts at sample `from`, in the order found:
/// each search resumes at the end of the interval before it.
pub open spec fn intervals_from(s: Seq<Record>, from: int, limit: Speed) -> Seq<Span>
    decreases s.len() - from,
    via intervals_from_decreases
{
    match next_interval(s, from, limit) {
        Some(found) => seq![found] + intervals_from(s, found.end, limit),
        None => Seq::empty(),
    }
}

#[via_fn]
proof fn intervals_from_decreases(s: Seq<Record>, from: int, limit: Speed) {
    lemma_next_interval(s, from, limit);
}

/// Every interval in the samples, in the order found.
pub open spec fn intervals(s: Seq<Record>, limit: Speed) -> Seq<Span> {
    intervals_from(s, 0, limit)
}

/// The intervals of a scan from `from` on: none is empty, each lies within
/// the samples at or after `from`, and each starts at or after the end of
/// the one before it.
pub proof fn lemma_intervals_from(s: Seq<Record>, from: int, limit: Speed)
    ensures
        forall|k: int|
            0 <= k < intervals_from(s, from, limit).len() ==> {
                &&& from <= (#[trigger] intervals_from(s, from, limit)[k]).start
                &&& intervals_from(s, from, limit)[k].start < intervals_from(s, from, limit)[k].end
                &&& intervals_from(s, from, limit)[k].end < s.len()
            },
        forall|i: int, j: int|
            0 <= i < j < intervals_from(s, from, limit).len() ==> (#[trigger] intervals_from(
                s,
                from,
                limit,
            )[i]).end <= (#[trigger] intervals_from(s, from, limit)[j]).start,
    decreases s.len() - from,
{
    lemma_next_interval(s, from, limit);
    if let Some(found) = next_interval(s, from, limit) {
        lemma_intervals_from(s, found.end, limit);
        let rest = intervals_from(s, found.end, limit);
        let all = intervals_from(s, from, limit);
        assert(all == seq![found] + rest);
        assert forall|k: int| 0 <= k < all.len() implies from <= (#[trigger] all[k]).start
            < all[k].end < s.len() by {
            if k > 0 {
                assert(all[k] == rest[k - 1]);
            }
        }
        assert forall|i: int, j: int| 0 <= i < j < all.len() implies (#[trigger] all[i]).end <= (
        #[trigger] all[j]).start by {
            assert(all[j] == rest[j - 1]);
            if i > 0 {
                assert(all[i] == rest[i - 1]);
            }
        }
    }
}

/// The intervals found in the samples are in bounds, ordered and disjoint:
/// none is empty, each ends before the last sample does, and each starts at
/// or after the end of the one before it.
pub proof fn lemma_intervals_ordered(s: Seq<Record>, limit: Speed)
    ensures
        forall|k: int|
            0 <= k < intervals(s, limit).len() ==> 0 <= (#[trigger] intervals(s, limit)[k]).start
                < intervals(s, limit)[k].end < s.len(),
        forall|i: int, j: int|
            0 <= i < j < intervals(s, limit).len() ==> (#[trigger] intervals(s, limit)[i]).end <= (
            #[trigger] intervals(s, limit)[j]).start,
{
    lemma_intervals_from(s, 0, limit);
}

} // verus!
