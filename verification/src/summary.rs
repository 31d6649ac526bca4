//! From index ranges to reportable intervals: the minimum-duration filter
//! and the summary of what survives it.

use crate::record::{time_ordered, Record};
use crate::interval::{intervals, span, spans, Span};
use crate::scan::find_all_intervals;
use crate::speed::Speed;
use std::ops::Range;
use vstd::prelude::*;

verus! {

/// A detected interval as it is reported.
#[derive(Debug, Clone, Copy, PartialEq, Eq, Structural)]
pub struct IntervalInfo {
    /// Time of the first sample, in whole seconds.
    pub start_time: usize,
    /// Time from the first sample to the last, in whole seconds.
    pub duration: usize,
    /// Distance covered from the first sample to the last, in whole metres.
    pub distance: u64,
}

/// The span is not empty and lies within the samples.
pub open spec fn within(s: Seq<Record>, r: Span) -> bool {
    0 <= r.start < r.end <= s.len()
}

/// Seconds from the first sample of the span to its last.
pub open spec fn duration_of(s: Seq<Record>, r: Span) -> int {
    s[r.end - 1].time_in_seconds - s[r.start].time_in_seconds
}

/// Thousandths of a metre covered from the first sample of the span to its
/// last; nothing where the cumulative distance fell.
pub open spec fn distance_gain(s: Seq<Record>, r: Span) -> int {
    let gain = s[r.end - 1].distance - s[r.start].distance;
    if gain >= 0 {
        gain
    } else {
        0
    }
}

/// Thousandths rounded to the nearest whole unit, halves upwards.
pub open spec fn round_to_unit(thousandths: int) -> int {
    (thousandths + 500) / 1000
}

/// The span can be summarized: it lies within the samples and its last
/// sample is not earlier than its first.
pub open spec fn measurable(s: Seq<Record>, r: Span) -> bool {
    within(s, r) && duration_of(s, r) >= 0
}

/// The span lasts at least `min_duration` seconds.
pub open spec fn lasts(s: Seq<Record>, r: Span, min_duration: int) -> bool {
    duration_of(s, r) >= min_duration
}

/// The test that the minimum-duration filter applies to each span.
pub open spec fn lasting(s: Seq<Record>, min_duration: int) -> spec_fn(Span) -> bool {
    |r: Span| lasts(s, r, min_duration)
}

/// The report of one span.
pub open spec fn summary_of(s: Seq<Record>, r: Span) -> IntervalInfo {
    IntervalInfo {
        start_time: s[r.start].time_in_seconds,
        duration: duration_of(s, r) as usize,
        distance: round_to_unit(distance_gain(s, r)) as u64,
    }
}

/// How each surviving span is reported.
pub open spec fn summarizing(s: Seq<Record>) -> spec_fn(Span) -> IntervalInfo {
    |r: Span| summary_of(s, r)
}

/// The spans that last at least `min_duration` seconds, in their order.
pub open spec fn survivors(s: Seq<Record>, found: Seq<Span>, min_duration: int) -> Seq<Span> {
    found.filter(lasting(s, min_duration))
}

/// The reports of the spans that last at least `min_duration` seconds, in
/// the order of the spans.
pub open spec fn summaries(s: Seq<Record>, found: Seq<Span>, min_duration: int) -> Seq<
    IntervalInfo,
> {
    survivors(s, found, min_duration).map_values(summarizing(s))
}

/// Summarizes one range of samples.
///
/// The duration is the exact difference of the times of the last and the
/// first sample. The distance is the gain in cumulative distance between
/// them, rounded to the nearest metre with halves upwards, and so within
/// half a metre of the gain. Where the cumulative distance fell, the
/// distance is zero.
pub fn summarize(records: &[Record], range: &Range<usize>) -> (info: IntervalInfo)
    requires
        measurable(records@, span(*range)),
    ensures
        info == summary_of(records@, span(*range)),
        info.start_time == records@[range.start as int].time_in_seconds,
        info.duration == records@[range.end - 1].time_in_seconds
            - records@[range.start as int].time_in_seconds,
        info.distance == round_to_unit(distance_gain(records@, span(*range))),
        records@[range.end - 1].distance >= records@[range.start as int].distance ==> {
            let gain = records@[range.end - 1].distance - records@[range.start as int].distance;
            gain - 500 < 1000 * info.distance <= gain + 500
        },
{
    let first: Record = records[range.start];
    let last: Record = records[range.end - 1];
    let gain: u64 = if last.distance >= first.distance {
        last.distance - first.distance
    } else {
        0
    };
    let rounded: u64 = if gain % 1000 >= 500 {
        gain / 1000 + 1
    } else {
        gain / 1000
    };
    IntervalInfo {
        start_time: first.time_in_seconds,
        duration: last.time_in_seconds - first.time_in_seconds,
        distance: rounded,
    }
}

/// Raising the minimum duration only removes survivors: what lasts at least
/// `higher` seconds is what lasts that long among the spans that last at
/// least `lower` seconds, so there are never more of them.
pub proof fn lemma_raising_minimum(s: Seq<Record>, found: Seq<Span>, lower: int, higher: int)
    requires
        lower <= higher,
    ensures
        survivors(s, found, higher) == survivors(s, survivors(s, found, lower), higher),
        survivors(s, found, higher).len() <= survivors(s, found, lower).len(),
        summaries(s, found, higher).len() <= summaries(s, found, lower).len(),
    decreases found.len(),
{
    let keep_lower = lasting(s, lower);
    let keep_higher = lasting(s, higher);
    if found.len() == 0 {
        reveal(Seq::filter);
    } else {
        let rest = found.drop_last();
        let last = found.last();
        assert(found == rest.push(last));
        lemma_raising_minimum(s, rest, lower, higher);
        rest.lemma_filter_push(last, keep_lower);
        rest.lemma_filter_push(last, keep_higher);
        rest.filter(keep_lower).lemma_filter_push(last, keep_higher);
        assert(keep_higher(last) ==> keep_lower(last));
    }
    survivors(s, found, lower).lemma_filter_len(keep_higher);
}

/// Keeps the ranges that last at least `min_interval_duration` seconds and
/// summarizes each of them, in the order given.
pub fn summarize_intervals(
    records: &[Record],
    ranges: &[Range<usize>],
    min_interval_duration: usize,
) -> (infos: Vec<IntervalInfo>)
    requires
        forall|k: int| 0 <= k < ranges@.len() ==> measurable(records@, span(#[trigger] ranges@[k])),
    ensures
        infos@ == summaries(records@, spans(ranges@), min_interval_duration as int),
{
    let mut infos: Vec<IntervalInfo> = Vec::new();
    let mut k: usize = 0;
    while k < ranges.len()
        invariant
            k <= ranges@.len(),
            forall|k: int|
                0 <= k < ranges@.len() ==> measurable(records@, span(#[trigger] ranges@[k])),
            infos@ == summaries(
                records@,
                spans(ranges@).take(k as int),
                min_interval_duration as int,
            ),
        decreases ranges@.len() - k,
    {
        let info: IntervalInfo = summarize(records, &ranges[k]);
        proof {
            let seen = spans(ranges@).take(k as int);
            let current = span(ranges@[k as int]);
            assert(spans(ranges@).take(k + 1) == seen.push(current));
            seen.lemma_filter_push(current, lasting(records@, min_interval_duration as int));
        }
        if info.duration >= min_interval_duration {
            infos.push(info);
        }
        k += 1;
    }
    proof {
        assert(spans(ranges@).take(k as int) == spans(ranges@));
    }
    infos
}

/// Finds every interval whose mean speed holds `limit` and reports those
/// that last at least `min_interval_duration` seconds, in the order found.
pub fn detect_intervals(records: &[Record], limit: Speed, min_interval_duration: usize) -> (infos:
    Vec<IntervalInfo>)
    requires
        time_ordered(records@),
    ensures
        infos@ == summaries(records@, intervals(records@, limit), min_interval_duration as int),
{
    let ranges: Vec<Range<usize>> = find_all_intervals(records, limit);
    summarize_intervals(records, ranges.as_slice(), min_interval_duration)
}

} // verus!
