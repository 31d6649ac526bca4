//! Choosing the speed limit that an analysis runs with.

use crate::speed::Speed;
use vstd::prelude::*;

verus! {

/// Why no limit can be chosen.
#[derive(Debug, Clone, Copy, PartialEq, Eq, Structural)]
pub enum ConfigError {
    /// Neither a speed nor a pace was given.
    NoLimit,
    /// Both a speed and a pace were given.
    TwoLimits,
}

/// Chooses the limit from the two ways of giving one: a speed in thousandths
/// of a kilometre per hour, or a pace in thousandths of a second per 500
/// metres. Exactly one of them must be given.
pub fn select_limit(limit_kmph: Option<u64>, limit_pace: Option<u64>) -> (chosen: Result<
    Speed,
    ConfigError,
>)
    ensures
        chosen == match (limit_kmph, limit_pace) {
            (Some(kmph), None) => Ok::<Speed, ConfigError>(Speed::Kmph(kmph)),
            (None, Some(pace)) => Ok(Speed::SecPer500m(pace)),
            (None, None) => Err(ConfigError::NoLimit),
            (Some(_), Some(_)) => Err(ConfigError::TwoLimits),
        },
{
    match (limit_kmph, limit_pace) {
        (Some(kmph), None) => Ok(Speed::Kmph(kmph)),
        (None, Some(pace)) => Ok(Speed::SecPer500m(pace)),
        (None, None) => Err(ConfigError::NoLimit),
        (Some(_), Some(_)) => Err(ConfigError::TwoLimits),
    }
}

} // verus!
