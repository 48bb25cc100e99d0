//! The time-of-use periods of a day, and the period of a given instant.

use crate::timestamp::{hour_of, Timestamp};
use vstd::prelude::*;

verus! {

/// The tariff period that a sample falls in.
#[derive(Clone, Copy, Debug, PartialEq, Eq, Structural, Hash)]
pub enum PeriodCategory {
    /// Off-peak hours from midnight to 8 o'clock.
    EveningOffPeak,
    /// Peak hours from 8 to 11 o'clock.
    MorningPeak,
    /// Off-peak hours from 11 to 13 o'clock.
    NoonOffPeak,
    /// Peak hours from 13 to 17 o'clock.
    NoonPeak,
    /// The rest of the day, from 17 o'clock to midnight.
    Normal,
}

impl PeriodCategory {
    /// The first hour of the period.
    pub open spec fn first_hour(self) -> int {
        match self {
            PeriodCategory::EveningOffPeak => 0,
            PeriodCategory::MorningPeak => 8,
            PeriodCategory::NoonOffPeak => 11,
            PeriodCategory::NoonPeak => 13,
            PeriodCategory::Normal => 17,
        }
    }

    /// The hour at which the period ends; that hour is no part of it.
    pub open spec fn end_hour(self) -> int {
        match self {
            PeriodCategory::EveningOffPeak => 8,
            PeriodCategory::MorningPeak => 11,
            PeriodCategory::NoonOffPeak => 13,
            PeriodCategory::NoonPeak => 17,
            PeriodCategory::Normal => 24,
        }
    }

    /// Whether the period holds the hour `hour` of the day.
    pub open spec fn covers(self, hour: int) -> bool {
        self.first_hour() <= hour < self.end_hour()
    }

    /// Whether headroom is reported for the samples of this period.
    pub open spec fn off_peak(self) -> bool {
        self == PeriodCategory::EveningOffPeak || self == PeriodCategory::NoonOffPeak
    }

    /// Whether headroom is reported for the samples of this period.
    pub fn is_off_peak(&self) -> (r: bool)
        ensures
            r == self.off_peak(),
    {
        match self {
            PeriodCategory::EveningOffPeak => true,
            PeriodCategory::NoonOffPeak => true,
            _ => false,
        }
    }
}

/// The period of the hour `hour` of the day.
pub open spec fn period_of_hour(hour: int) -> PeriodCategory {
    if hour < 8 {
        PeriodCategory::EveningOffPeak
    } else if hour < 11 {
        PeriodCategory::MorningPeak
    } else if hour < 13 {
        PeriodCategory::NoonOffPeak
    } else if hour < 17 {
        PeriodCategory::NoonPeak
    } else {
        PeriodCategory::Normal
    }
}

/// The period of the instant `secs`.
pub open spec fn period_of(secs: int) -> PeriodCategory {
    period_of_hour(hour_of(secs))
}

/// The tariff period of `dt`; only its hour of the day counts.
pub fn categorize_by_datetime(dt: &Timestamp) -> (category: PeriodCategory)
    ensures
        category == period_of(dt@),
        category.covers(hour_of(dt@)),
{
    let hour = dt.hour();
    if hour < 8 {
        PeriodCategory::EveningOffPeak
    } else if hour < 11 {
        PeriodCategory::MorningPeak
    } else if hour < 13 {
        PeriodCategory::NoonOffPeak
    } else if hour < 17 {
        PeriodCategory::NoonPeak
    } else {
        PeriodCategory::Normal
    }
}

/// The five periods partition the day: each hour from 0 to 23 lies in the
/// period that `period_of_hour` gives, and in no other.
pub proof fn lemma_periods_partition_day(hour: int, category: PeriodCategory)
    requires
        0 <= hour < 24,
    ensures
        category.covers(hour) <==> category == period_of_hour(hour),
{
}

/// Every instant has an hour of the day from 0 to 23, so it lies in exactly
/// one period.
pub proof fn lemma_every_instant_has_one_period(secs: int, category: PeriodCategory)
    ensures
        0 <= hour_of(secs) < 24,
        category.covers(hour_of(secs)) <==> category == period_of(secs),
{
}

} // verus!
