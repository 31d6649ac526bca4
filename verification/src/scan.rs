//! The interval scanner: finds where a sustained effort starts and where it
//! is seen to end.

use crate::interval::{
    average_below, intervals, intervals_from, is_crossing, is_first_drop, lemma_intervals_ordered,
    lemma_next_interval_is, lemma_no_next_interval, lemma_single_sample, never_drops,
    never_reaches, next_interval, reaches, span, spans, speed_sum, Span,
};
use crate::record::Record;
use crate::speed::Speed;
use std::ops::Range;
use vstd::prelude::*;

verus! {

/// Finds the next interval at or after `start_index`.
///
/// The interval starts at the first sample whose speed reaches `limit` and
/// runs up to, but not including, the first later sample that drags the mean
/// speed since that start below `limit`. Without such a start, or when the
/// mean never drops before the samples run out, there is no interval.
pub fn find_interval(records: &[Record], start_index: usize, limit: Speed) -> (found: Option<
    Range<usize>,
>)
    ensures
        match found {
            Some(r) => next_interval(records@, start_index as int, limit) == Some(span(r)),
            None => next_interval(records@, start_index as int, limit) is None,
        },
        match found {
            Some(r) => {
                &&& r.start < r.end
                &&& is_crossing(records@, start_index as int, r.start as int, limit)
                &&& is_first_drop(records@, r.start as int, r.end as int, limit)
            },
            None => {
                ||| never_reaches(records@, start_index as int, limit)
                ||| exists|i: int|
                    is_crossing(records@, start_index as int, i, limit) && never_drops(
                        records@,
                        i,
                        limit,
                    )
            },
        },
        never_reaches(records@, start_index as int, limit) ==> found is None,
        forall|i: int|
            is_crossing(records@, start_index as int, i, limit) && never_drops(records@, i, limit)
                ==> found is None,
{
    let n: usize = records.len();
    let mut start: usize = start_index;
    while start < n && !(records[start].speed >= limit)
        invariant
            n == records@.len(),
            start_index <= start,
            forall|k: int| start_index <= k < start ==> !reaches(records@, k, limit),
        decreases n - start,
    {
        start += 1;
    }
    if start >= n {
        proof {
            lemma_no_next_interval(records@, start_index as int, limit);
        }
        return None;
    }
    let limit_ms: u64 = limit.to_ms();
    let mut total: u128 = 0;
    let mut idx: usize = start;
    while idx < n
        invariant
            n == records@.len(),
            start <= idx <= n,
            is_crossing(records@, start_index as int, start as int, limit),
            limit_ms == limit.canonical(),
            total == speed_sum(records@, start as int, idx as int),
            total <= (idx - start) * u64::MAX,
            forall|j: int| start <= j < idx ==> !average_below(records@, start as int, j, limit),
        decreases n - idx,
    {
        let count: u128 = (idx - start) as u128 + 1;
        assert(count * u64::MAX <= u128::MAX) by (nonlinear_arith)
            requires
                count <= u64::MAX + 1,
        ;
        assert((idx - start) * u64::MAX + u64::MAX == count * u64::MAX) by (nonlinear_arith)
            requires
                count == idx - start + 1,
        ;
        total = total + records[idx].speed.to_ms() as u128;
        assert(limit_ms * count <= u128::MAX) by (nonlinear_arith)
            requires
                limit_ms <= u64::MAX,
                count <= u64::MAX + 1,
        ;
        if total < (limit_ms as u128) * count {
            proof {
                assert(average_below(records@, start as int, idx as int, limit));
                lemma_single_sample(records@, start as int, limit);
                lemma_next_interval_is(
                    records@,
                    start_index as int,
                    Span { start: start as int, end: idx as int },
                    limit,
                );
            }
            return Some(start..idx);
        }
        idx += 1;
    }
    proof {
        assert(never_drops(records@, start as int, limit));
        lemma_no_next_interval(records@, start_index as int, limit);
    }
    None
}

/// Finds every interval in the samples.
///
/// The first search starts at the first sample and each later one at the end
/// of the interval found before it, until a search finds nothing. The ranges
/// come out in the order found: none is empty, each lies within the samples,
/// and each starts at or after the end of the one before it.
pub fn find_all_intervals(records: &[Record], limit: Speed) -> (results: Vec<Range<usize>>)
    ensures
        spans(results@) == intervals(records@, limit),
        forall|k: int|
            0 <= k < results@.len() ==> (#[trigger] results@[k]).start < results@[k].end
                < records@.len(),
        forall|i: int, j: int|
            0 <= i < j < results@.len() ==> (#[trigger] results@[i]).end <= (
            #[trigger] results@[j]).start,
{
    let mut results: Vec<Range<usize>> = Vec::new();
    let mut start_index: usize = 0;
    loop
        invariant
            start_index <= records@.len(),
            spans(results@) + intervals_from(records@, start_index as int, limit) == intervals(
                records@,
                limit,
            ),
        decreases records@.len() - start_index,
    {
        match find_interval(records, start_index, limit) {
            Some(interval) => {
                proof {
                    assert(spans(results@.push(interval)) == spans(results@).push(span(interval)));
                    assert(spans(results@).push(span(interval)) + intervals_from(
                        records@,
                        interval.end as int,
                        limit,
                    ) == spans(results@) + intervals_from(records@, start_index as int, limit));
                }
                start_index = interval.end;
                results.push(interval);
            },
            None => {
                proof {
                    lemma_intervals_ordered(records@, limit);
                    assert forall|k: int| 0 <= k < results@.len() implies (
                    #[trigger] results@[k]).start < results@[k].end < records@.len() by {
                        assert(spans(results@)[k] == span(results@[k]));
                    }
                    assert forall|i: int, j: int| 0 <= i < j < results@.len() implies (
                    #[trigger] results@[i]).end <= (#[trigger] results@[j]).start by {
                        assert(spans(results@)[i] == span(results@[i]));
                        assert(spans(results@)[j] == span(results@[j]));
                    }
                }
                return results;
            },
        }
    }
}

} // verus!
