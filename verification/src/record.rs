//! Activity samples: the rows of an export and the samples built from them.

use crate::speed::Speed;
use vstd::prelude::*;

verus! {

/// Activity type of the closing row that some exports append: it marks the
/// end of the recording and carries no measurement.
pub const UNKNOWN_ACTIVITY: isize = -1;

/// One row of an export, as far as the analysis reads it.
#[derive(Debug, Clone, Copy)]
pub struct RawRecord {
    /// Whole seconds since the activity began.
    pub time_in_seconds: usize,
    /// Kind of activity that the row was recorded under.
    pub activity_type: isize,
    /// Cumulative distance in thousandths of a metre, if the row has one.
    pub distance: Option<u64>,
    /// Speed in thousandths of a metre per second, if the row has one.
    pub speed: Option<u64>,
}

/// One observation of an activity.
#[derive(Debug, Clone, Copy)]
pub struct Record {
    /// Whole seconds since the activity began.
    pub time_in_seconds: usize,
    /// Cumulative distance in thousandths of a metre.
    pub distance: u64,
    /// Instantaneous speed at this observation.
    pub speed: Speed,
}

/// Why a row cannot become a sample.
#[derive(Debug, Clone, Copy, PartialEq, Eq, Structural)]
pub enum InputError {
    /// The row at this index has no distance.
    MissingDistance(usize),
    /// The row at this index has a distance but no speed.
    MissingSpeed(usize),
}

/// The rows without a closing row of unknown activity.
pub open spec fn without_sentinel(rows: Seq<RawRecord>) -> Seq<RawRecord> {
    if rows.len() > 0 && rows.last().activity_type == UNKNOWN_ACTIVITY {
        rows.drop_last()
    } else {
        rows
    }
}

/// The row has both measurements that a sample needs.
pub open spec fn is_complete(row: RawRecord) -> bool {
    row.distance is Some && row.speed is Some
}

/// Every row has both measurements.
pub open spec fn all_complete(rows: Seq<RawRecord>) -> bool {
    forall|k: int| 0 <= k < rows.len() ==> is_complete(#[trigger] rows[k])
}

/// The sample that a complete row stands for.
pub open spec fn record_of(row: RawRecord) -> Record {
    Record {
        time_in_seconds: row.time_in_seconds,
        distance: row.distance->0,
        speed: Speed::Ms(row.speed->0),
    }
}

/// The samples that complete rows stand for, in the same order.
pub open spec fn records_of(rows: Seq<RawRecord>) -> Seq<Record> {
    rows.map_values(|row: RawRecord| record_of(row))
}

/// Time never runs backwards from one sample to a later one.
pub open spec fn time_ordered(s: Seq<Record>) -> bool {
    forall|i: int, j: int|
        0 <= i <= j < s.len() ==> (#[trigger] s[i]).time_in_seconds <= (
        #[trigger] s[j]).time_in_seconds
}

/// Drops the last row if it is a closing row of unknown activity.
pub fn trim_sentinel(rows: &mut Vec<RawRecord>)
    ensures
        final(rows)@ == without_sentinel(old(rows)@),
{
    let n: usize = rows.len();
    if n > 0 && rows[n - 1].activity_type == UNKNOWN_ACTIVITY {
        rows.pop();
    }
}

/// Builds the samples from the rows of an export.
///
/// Succeeds exactly when every row has a distance and a speed. Otherwise the
/// error names the first row that lacks one, and the distance if it lacks
/// both.
pub fn build_records(rows: &[RawRecord]) -> (built: Result<Vec<Record>, InputError>)
    ensures
        built is Ok <==> all_complete(rows@),
        match built {
            Ok(records) => records@ == records_of(rows@),
            Err(InputError::MissingDistance(row)) => {
                &&& row < rows@.len()
                &&& rows@[row as int].distance is None
                &&& forall|k: int| 0 <= k < row ==> is_complete(#[trigger] rows@[k])
            },
            Err(InputError::MissingSpeed(row)) => {
                &&& row < rows@.len()
                &&& rows@[row as int].distance is Some
                &&& rows@[row as int].speed is None
                &&& forall|k: int| 0 <= k < row ==> is_complete(#[trigger] rows@[k])
            },
        },
{
    let mut records: Vec<Record> = Vec::new();
    let mut row: usize = 0;
    while row < rows.len()
        invariant
            row <= rows@.len(),
            forall|k: int| 0 <= k < row ==> is_complete(#[trigger] rows@[k]),
            records@ == records_of(rows@.take(row as int)),
        decreases rows@.len() - row,
    {
        let raw: RawRecord = rows[row];
        let distance: u64 = match raw.distance {
            Some(distance) => distance,
            None => {
                return Err(InputError::MissingDistance(row));
            },
        };
        let speed: u64 = match raw.speed {
            Some(speed) => speed,
            None => {
                return Err(InputError::MissingSpeed(row));
            },
        };
        records.push(Record { time_in_seconds: raw.time_in_seconds, distance, speed: Speed::Ms(speed) });
        proof {
            assert(rows@.take(row + 1) == rows@.take(row as int).push(rows@[row as int]));
            assert(records@ == records_of(rows@.take(row + 1)));
        }
        row += 1;
    }
    proof {
        assert(rows@.take(row as int) == rows@);
    }
    Ok(records)
}

/// Tells whether time never runs backwards in the samples.
pub fn is_time_ordered(records: &[Record]) -> (ordered: bool)
    ensures
        ordered == time_ordered(records@),
{
    let mut next: usize = 1;
    while next < records.len()
        invariant
            1 <= next,
            forall|i: int, j: int|
                0 <= i <= j < next && j < records@.len() ==> (
                #[trigger] records@[i]).time_in_seconds <= (
                #[trigger] records@[j]).time_in_seconds,
        decreases records@.len() - next,
    {
        if records[next - 1].time_in_seconds > records[next].time_in_seconds {
            return false;
        }
        assert forall|i: int, j: int| 0 <= i <= j < next + 1 implies (
        #[trigger] records@[i]).time_in_seconds <= (#[trigger] records@[j]).time_in_seconds by {
            if i < j && j == next {
                assert(records@[i].time_in_seconds <= records@[next - 1].time_in_seconds);
            }
        }
        next += 1;
    }
    true
}

} // verus!
