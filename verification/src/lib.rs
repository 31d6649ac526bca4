//! Detection of sustained-speed intervals in recorded activity samples.
//!
//! A scan walks the samples of one activity and reports every stretch during
//! which the mean speed held a given limit, provided the stretch lasted long
//! enough.
//!
//! Speeds, paces and distances are fixed-point integers with three decimal
//! places. A speed in any unit is first brought to whole thousandths of a
//! metre per second; from there on every sum and every comparison is exact.

pub mod interval;
pub mod limit;
pub mod record;
pub mod scan;
pub mod speed;
pub mod summary;

pub use limit::{select_limit, ConfigError};
pub use record::{build_records, is_time_ordered, trim_sentinel, InputError, RawRecord, Record};
pub use scan::{find_all_intervals, find_interval};
pub use speed::Speed;
pub use summary::{detect_intervals, summarize, summarize_intervals, IntervalInfo};
