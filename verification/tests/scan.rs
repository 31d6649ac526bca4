use interval_detector::{find_all_intervals, find_interval, Record, Speed};

fn samples(speeds: &[u64]) -> Vec<Record> {
    let mut distance = 0;
    let mut records = Vec::new();
    for (time, speed) in speeds.iter().enumerate() {
        records.push(Record {
            time_in_seconds: time,
            distance,
            speed: Speed::Ms(*speed),
        });
        distance += *speed;
    }
    records
}

#[test]
fn test_find_interval() {
    let records = [
        Record {
            time_in_seconds: 0,
            speed: Speed::Ms(1000),
            distance: 0,
        },
        Record {
            time_in_seconds: 1,
            speed: Speed::Ms(2000),
            distance: 1000,
        },
        Record {
            time_in_seconds: 2,
            speed: Speed::Ms(1800),
            distance: 2000,
        },
        Record {
            time_in_seconds: 3,
            speed: Speed::Ms(2200),
            distance: 2000,
        },
        Record {
            time_in_seconds: 4,
            speed: Speed::Ms(0),
            distance: 2000,
        },
    ];

    assert_eq!(find_interval(&records, 0, Speed::Ms(1900)), Some(1..4));
    assert_eq!(find_interval(&records, 0, Speed::Ms(2100)), Some(3..4));
}

#[test]
fn find_interval_takes_the_limit_in_any_unit() {
    let records = samples(&[1000, 2000, 1800, 2200, 0]);
    // 6.84 km/h is 1.9 m/s.
    assert_eq!(find_interval(&records, 0, Speed::Kmph(6840)), Some(1..4));
    // 500 m in 263.157 s is 1.900 m/s, rounded down.
    assert_eq!(
        find_interval(&records, 0, Speed::SecPer500m(263_157)),
        Some(1..4)
    );
    // 7.56 km/h is 2.1 m/s.
    assert_eq!(find_interval(&records, 0, Speed::Kmph(7560)), Some(3..4));
}

#[test]
fn find_interval_reads_samples_in_any_unit() {
    let mut records = samples(&[1000, 2000, 1800, 2200, 0]);
    records[1].speed = Speed::Kmph(7200);
    records[2].speed = Speed::SecPer500m(277_777);
    records[3].speed = Speed::Kmph(7920);
    assert_eq!(find_interval(&records, 0, Speed::Ms(1900)), Some(1..4));
    assert_eq!(find_interval(&records, 0, Speed::Ms(2100)), Some(3..4));
}

#[test]
fn find_interval_starts_where_the_speed_first_reaches_the_limit() {
    let records = samples(&[500, 1899, 1900, 5000, 0, 0, 0]);
    // 1900 reaches the limit exactly; 1900 + 5000 + 0 + 0 = 6900 < 4 * 1900.
    assert_eq!(find_interval(&records, 0, Speed::Ms(1900)), Some(2..5));
    let found = find_interval(&records, 0, Speed::Ms(1900)).unwrap();
    assert!(records[found.start].speed >= Speed::Ms(1900));
    for earlier in 0..found.start {
        assert!(records[earlier].speed < Speed::Ms(1900));
    }
}

#[test]
fn find_interval_ends_at_the_first_sample_that_drags_the_mean_below() {
    let records = samples(&[3000, 3000, 0, 0, 3000, 0]);
    // Means from sample 0: 3000, 3000, 2000, 1500, 1800, 1500.
    assert_eq!(find_interval(&records, 0, Speed::Ms(2000)), Some(0..3));
    assert_eq!(find_interval(&records, 0, Speed::Ms(2001)), Some(0..2));
    assert_eq!(find_interval(&records, 0, Speed::Ms(1501)), Some(0..3));
    assert_eq!(find_interval(&records, 0, Speed::Ms(1500)), None);
    let found = find_interval(&records, 0, Speed::Ms(2001)).unwrap();
    let mut sum = 0;
    for at in found.start..found.end {
        sum += records[at].speed.to_ms();
        assert!(sum >= 2001 * (at - found.start + 1) as u64);
    }
    sum += records[found.end].speed.to_ms();
    assert!(sum < 2001 * (found.end - found.start + 1) as u64);
}

#[test]
fn find_interval_keeps_going_while_the_mean_equals_the_limit() {
    let records = samples(&[2000, 1000, 1500, 1499]);
    // Means: 2000, 1500, 1500, 1499.75.
    assert_eq!(find_interval(&records, 0, Speed::Ms(1500)), Some(0..3));
}

#[test]
fn find_interval_compares_the_exact_mean() {
    let records = samples(&[2, 1, 1, 1]);
    // Means: 2, 1.5, 1.33.., 1.25: the mean is below 2 from the second sample.
    assert_eq!(find_interval(&records, 0, Speed::Ms(2)), Some(0..1));
    // None of the means is below 1.
    assert_eq!(find_interval(&records, 0, Speed::Ms(1)), None);
}

#[test]
fn find_interval_finds_nothing_when_no_sample_reaches_the_limit() {
    let records = samples(&[1000, 1899, 1500, 0, 1899]);
    assert_eq!(find_interval(&records, 0, Speed::Ms(1900)), None);
    assert_eq!(find_interval(&records, 3, Speed::Ms(1900)), None);
}

#[test]
fn find_interval_finds_nothing_after_the_last_fast_sample() {
    let records = samples(&[1000, 2000, 0, 1000]);
    assert_eq!(find_interval(&records, 0, Speed::Ms(1900)), Some(1..2));
    assert_eq!(find_interval(&records, 2, Speed::Ms(1900)), None);
}

#[test]
fn find_interval_discards_an_interval_without_an_observed_end() {
    let records = samples(&[1000, 2000, 2500, 1900, 1950]);
    // The mean from sample 1 never drops below 1900.
    assert_eq!(find_interval(&records, 0, Speed::Ms(1900)), None);
    // An earlier interval with an end is still found.
    let records = samples(&[3000, 0, 2000, 2500]);
    assert_eq!(find_interval(&records, 0, Speed::Ms(1900)), Some(0..1));
    assert_eq!(find_interval(&records, 1, Speed::Ms(1900)), None);
}

#[test]
fn find_interval_finds_nothing_when_the_crossing_is_the_last_sample() {
    let records = samples(&[1000, 1000, 2000]);
    assert_eq!(find_interval(&records, 0, Speed::Ms(1900)), None);
    assert_eq!(find_interval(&records, 2, Speed::Ms(1900)), None);
}

#[test]
fn find_interval_starts_at_or_after_the_start_index() {
    let records = samples(&[3000, 0, 0, 3000, 0, 0]);
    assert_eq!(find_interval(&records, 0, Speed::Ms(2000)), Some(0..1));
    assert_eq!(find_interval(&records, 1, Speed::Ms(2000)), Some(3..4));
    assert_eq!(find_interval(&records, 3, Speed::Ms(2000)), Some(3..4));
    assert_eq!(find_interval(&records, 4, Speed::Ms(2000)), None);
}

#[test]
fn find_interval_accepts_a_start_index_past_the_end() {
    let records = samples(&[3000, 0]);
    assert_eq!(find_interval(&records, 2, Speed::Ms(2000)), None);
    assert_eq!(find_interval(&records, 3, Speed::Ms(2000)), None);
    assert_eq!(find_interval(&records, usize::MAX, Speed::Ms(2000)), None);
}

#[test]
fn find_interval_on_no_samples() {
    let records: Vec<Record> = Vec::new();
    assert_eq!(find_interval(&records, 0, Speed::Ms(0)), None);
    assert_eq!(find_interval(&records, 5, Speed::Ms(1000)), None);
}

#[test]
fn find_interval_with_a_limit_of_zero_never_ends() {
    let records = samples(&[0, 0, 5, 0]);
    // Every sample reaches a limit of zero and no mean is below it.
    assert_eq!(find_interval(&records, 0, Speed::Ms(0)), None);
}

#[test]
fn find_interval_with_a_pace_of_zero_as_limit() {
    let records = samples(&[1000, 9_000_000, 0]);
    assert_eq!(find_interval(&records, 0, Speed::SecPer500m(0)), None);
    let mut records = samples(&[1000, 0, 0]);
    records[1].speed = Speed::SecPer500m(0);
    assert_eq!(
        find_interval(&records, 0, Speed::SecPer500m(0)),
        Some(1..2)
    );
}

#[test]
fn find_interval_sums_the_largest_speeds_without_overflow() {
    let records = samples_of_speed(u64::MAX, 40);
    assert_eq!(find_interval(&records, 0, Speed::Ms(u64::MAX)), None);
    let mut records = samples_of_speed(u64::MAX, 40);
    records[39].speed = Speed::Ms(u64::MAX - 40);
    // The sum of 40 samples is 40 * MAX - 40, one less than 40 * (MAX - 1) + 1.
    assert_eq!(
        find_interval(&records, 0, Speed::Ms(u64::MAX)),
        Some(0..39)
    );
    assert_eq!(find_interval(&records, 0, Speed::Ms(u64::MAX - 1)), None);
}

fn samples_of_speed(speed: u64, count: usize) -> Vec<Record> {
    let mut records = Vec::new();
    for time in 0..count {
        records.push(Record {
            time_in_seconds: time,
            distance: 0,
            speed: Speed::Ms(speed),
        });
    }
    records
}

#[test]
fn find_all_intervals_restarts_at_the_end_of_each_interval() {
    let records = samples(&[1000, 2000, 1800, 2200, 0, 3000, 0, 0, 2500, 2500, 0, 2000]);
    // From 0: [1, 4). From 4: crossing 5, means 3000, 1500: [5, 6).
    // From 6: crossing 8, means 2500, 2500, 1666: [8, 10).
    // From 10: crossing 11 is the last sample: nothing.
    assert_eq!(
        find_all_intervals(&records, Speed::Ms(1900)),
        vec![1..4, 5..6, 8..10]
    );
}

#[test]
fn find_all_intervals_resumes_at_the_sample_that_ended_an_interval() {
    let records = samples(&[5000, 4000, 3000, 0, 0]);
    // From 0: means 5000, 4500: [0, 1). From 1: sample 1 ended the first
    // interval and does not reach the limit; nothing later does.
    assert_eq!(find_all_intervals(&records, Speed::Ms(4600)), vec![0..1]);
    // From 0: means 5000, 4500, 4000, 3000: [0, 3). From 3: nothing reaches.
    assert_eq!(find_all_intervals(&records, Speed::Ms(3001)), vec![0..3]);
    let records = samples(&[9000, 5000, 0, 0, 0]);
    // From 0: means 9000, 7000, 4666: [0, 2). With a limit of 7001 the
    // first interval is [0, 1), and sample 1, which ended it, does not reach
    // the limit.
    assert_eq!(find_all_intervals(&records, Speed::Ms(7000)), vec![0..2]);
    assert_eq!(find_all_intervals(&records, Speed::Ms(7001)), vec![0..1]);
}

#[test]
fn find_all_intervals_finds_neighbouring_intervals() {
    let records = samples(&[3000, 2000, 3000, 2000, 0]);
    // From 0: means 3000, 2500: [0, 1). From 1: crossing 2, means 3000,
    // 2500: [2, 3). From 3: nothing reaches.
    assert_eq!(
        find_all_intervals(&records, Speed::Ms(2600)),
        vec![0..1, 2..3]
    );
    let records = samples(&[5000, 0, 5000, 0]);
    assert_eq!(
        find_all_intervals(&records, Speed::Ms(5000)),
        vec![0..1, 2..3]
    );
}

#[test]
fn find_all_intervals_are_in_bounds_ordered_and_disjoint() {
    let speeds = [
        0, 3100, 2900, 3500, 100, 200, 3000, 3000, 2999, 5000, 0, 0, 0, 4000, 1000, 3000, 3001,
        0, 7000, 2000, 2000, 500, 3000,
    ];
    let records = samples(&speeds);
    for limit in [0, 1, 500, 1000, 2000, 2999, 3000, 3001, 4000, 6000, 7000, 7001] {
        let found = find_all_intervals(&records, Speed::Ms(limit));
        let mut last_end = 0;
        for range in &found {
            assert!(range.start < range.end);
            assert!(range.end < records.len());
            assert!(last_end <= range.start);
            assert_eq!(
                find_interval(&records, last_end, Speed::Ms(limit)),
                Some(range.clone())
            );
            last_end = range.end;
        }
        assert_eq!(find_interval(&records, last_end, Speed::Ms(limit)), None);
    }
}

#[test]
fn find_all_intervals_on_no_samples() {
    let records: Vec<Record> = Vec::new();
    assert_eq!(find_all_intervals(&records, Speed::Ms(1000)), vec![]);
}

#[test]
fn find_all_intervals_without_an_interval() {
    let records = samples(&[1000, 1200, 900]);
    assert_eq!(find_all_intervals(&records, Speed::Ms(1900)), vec![]);
    // A single unterminated interval is not reported.
    assert_eq!(find_all_intervals(&records, Speed::Ms(900)), vec![]);
}
