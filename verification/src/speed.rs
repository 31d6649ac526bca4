//! Unit-aware speeds and their normalisation to metres per second.

use std::cmp::Ordering;
use vstd::prelude::*;

verus! {

/// Canonical speed of a pace of zero: no speed in any unit is faster.
pub const UNBOUNDED_MS: u64 = 0xffff_ffff_ffff_ffff;

/// What a pace divides to give a speed. Covering 500 metres, which are
/// 500 000 thousandths of a metre, in `p` thousandths of a second is a speed
/// of `PACE_NUMERATOR / p` thousandths of a metre per second.
pub const PACE_NUMERATOR: u64 = 500_000_000;

/// A rate of travel, tagged with the unit it was given in.
///
/// Each variant holds a fixed-point magnitude with three decimal places:
/// the integer `v` stands for `v / 1000` of the variant's unit.
#[derive(Debug, Clone, Copy)]
pub enum Speed {
    /// Kilometres per hour, in thousandths (that is, metres per hour).
    Kmph(u64),
    /// Metres per second, in thousandths (that is, millimetres per second).
    Ms(u64),
    /// Seconds needed to cover 500 metres, in thousandths.
    SecPer500m(u64),
}

impl Speed {
    /// The canonical value of the speed: thousandths of a metre per second,
    /// rounded down.
    ///
    /// Kilometres per hour are divided by 3.6, that is multiplied by 5 and
    /// divided by 18. A pace of `p` seconds becomes `500 / p` metres per
    /// second. A pace of zero has no finite speed and is given
    /// [`UNBOUNDED_MS`].
    pub open spec fn canonical(self) -> int {
        match self {
            Speed::Kmph(kmph) => (kmph * 5) / 18,
            Speed::Ms(ms) => ms as int,
            Speed::SecPer500m(pace) => if pace == 0 {
                UNBOUNDED_MS as int
            } else {
                PACE_NUMERATOR as int / pace as int
            },
        }
    }

    /// Converts the speed to thousandths of a metre per second.
    pub fn to_ms(self) -> (ms: u64)
        ensures
            ms == self.canonical(),
    {
        match self {
            Speed::Kmph(kmph) => {
                let scaled: u128 = (kmph as u128) * 5;
                (scaled / 18) as u64
            },
            Speed::Ms(ms) => ms,
            Speed::SecPer500m(pace) => if pace == 0 {
                UNBOUNDED_MS
            } else {
                PACE_NUMERATOR / pace
            },
        }
    }
}

/// Within each unit the conversion keeps the order: more kilometres per hour
/// or metres per second are never slower, and a smaller pace is never slower.
pub proof fn lemma_conversion_keeps_order(lower: u64, higher: u64)
    requires
        lower <= higher,
    ensures
        Speed::Kmph(lower).canonical() <= Speed::Kmph(higher).canonical(),
        Speed::Ms(lower).canonical() <= Speed::Ms(higher).canonical(),
        Speed::SecPer500m(lower).canonical() >= Speed::SecPer500m(higher).canonical(),
{
    if lower > 0 {
        vstd::arithmetic::div_mod::lemma_div_is_ordered_by_denominator(
            PACE_NUMERATOR as int,
            lower as int,
            higher as int,
        );
    } else if higher > 0 {
        vstd::arithmetic::div_mod::lemma_div_is_ordered_by_denominator(
            PACE_NUMERATOR as int,
            1,
            higher as int,
        );
    }
}

/// Two speeds are equal when their canonical values are.
impl PartialEq for Speed {
    fn eq(&self, other: &Self) -> (r: bool) {
        self.to_ms() == other.to_ms()
    }
}

impl vstd::std_specs::cmp::PartialEqSpecImpl for Speed {
    open spec fn obeys_eq_spec() -> bool {
        true
    }

    open spec fn eq_spec(&self, other: &Speed) -> bool {
        self.canonical() == other.canonical()
    }
}

/// Speeds are totally ordered by their canonical values, whatever their units.
impl PartialOrd for Speed {
    fn partial_cmp(&self, other: &Self) -> (r: Option<Ordering>) {
        let mine: u64 = self.to_ms();
        let theirs: u64 = other.to_ms();
        if mine < theirs {
            Some(Ordering::Less)
        } else if mine > theirs {
            Some(Ordering::Greater)
        } else {
            Some(Ordering::Equal)
        }
    }
}

impl vstd::std_specs::cmp::PartialOrdSpecImpl for Speed {
    open spec fn obeys_partial_cmp_spec() -> bool {
        true
    }

    open spec fn partial_cmp_spec(&self, other: &Speed) -> Option<Ordering> {
        if self.canonical() < other.canonical() {
            Some(Ordering::Less)
        } else if self.canonical() > other.canonical() {
            Some(Ordering::Greater)
        } else {
            Some(Ordering::Equal)
        }
    }
}

} // verus!
