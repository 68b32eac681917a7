//! One instant counted from the Unix epoch, and its human readable date.

use super::epoch_to_date::days_in_month;
use super::epoch_to_date::epoch_to_date;
use super::epoch_to_date::weekday_of;
use super::HumainDate;
use vstd::prelude::*;

verus! {

/// One monotonic instant in UTC, after the epoch (1970).
#[derive(Debug, Copy, Clone)]
pub struct Instant {
    /// Number of seconds since 1970-01-01 00:00:00.
    second: u64,
    /// Number of nanoseconds into the second.
    nano: u32,
}

impl Instant {
    /// The seconds since the epoch.
    pub closed spec fn spec_second(self) -> u64 {
        self.second
    }

    /// The nanoseconds into the second.
    pub closed spec fn spec_nano(self) -> u32 {
        self.nano
    }

    /// Create a new instant from seconds and nanoseconds: whole seconds in
    /// the nanosecond count are carried into the seconds.
    pub fn unix(second: u64, nano: u32) -> (r: Self)
        requires
            second + nano as int / 1_000_000_000 <= u64::MAX,
        ensures
            r.spec_second() == second + nano as int / 1_000_000_000,
            r.spec_nano() == nano as int % 1_000_000_000,
            r.spec_nano() < 1_000_000_000,
    {
        Instant { second: second + (nano / 1_000_000_000) as u64, nano: nano % 1_000_000_000 }
    }

    /// The human readable date of the instant: the clock fields are exact,
    /// the week day is exact, and the calendar date is a valid Gregorian
    /// date of a year from 1970 on.
    pub fn humain_date(self) -> (r: HumainDate)
        ensures
            r.hour == self.spec_second() as int / 3600 % 24,
            r.minute == self.spec_second() as int / 60 % 60,
            r.second == self.spec_second() as int % 60,
            r.nano == self.spec_nano(),
            r.week_day == weekday_of(self.spec_second() as int / 86400),
            r.year >= 1970,
            1 <= r.day <= days_in_month(r.year as int, r.month),
    {
        let seconds_in_day: u64 = 24 * 60 * 60;
        let (year, month, day, week_day) = epoch_to_date(self.second / seconds_in_day);
        HumainDate {
            year,
            month,
            day,
            week_day,
            hour: (self.second / (60 * 60) % 24) as u8,
            minute: (self.second / 60 % 60) as u8,
            second: (self.second % 60) as u8,
            nano: self.nano,
        }
    }
}

impl PartialEq for Instant {
    /// Two instants are equal when their seconds and nanoseconds are.
    fn eq(&self, other: &Self) -> (r: bool) {
        self.second == other.second && self.nano == other.nano
    }
}

impl vstd::std_specs::cmp::PartialEqSpecImpl for Instant {
    open spec fn obeys_eq_spec() -> bool {
        true
    }

    open spec fn eq_spec(&self, other: &Instant) -> bool {
        self.spec_second() == other.spec_second() && self.spec_nano() == other.spec_nano()
    }
}

impl Eq for Instant {

}

impl PartialOrd for Instant {
    /// Instants are ordered by seconds, then by nanoseconds.
    fn partial_cmp(&self, other: &Self) -> (r: Option<core::cmp::Ordering>) {
        Some(
            if self.second < other.second {
                core::cmp::Ordering::Less
            } else if self.second > other.second {
                core::cmp::Ordering::Greater
            } else if self.nano < other.nano {
                core::cmp::Ordering::Less
            } else if self.nano > other.nano {
                core::cmp::Ordering::Greater
            } else {
                core::cmp::Ordering::Equal
            },
        )
    }
}

impl vstd::std_specs::cmp::PartialOrdSpecImpl for Instant {
    open spec fn obeys_partial_cmp_spec() -> bool {
        true
    }

    open spec fn partial_cmp_spec(&self, other: &Instant) -> Option<core::cmp::Ordering> {
        Some(
            if self.spec_second() < other.spec_second() {
                core::cmp::Ordering::Less
            } else if self.spec_second() > other.spec_second() {
                core::cmp::Ordering::Greater
            } else if self.spec_nano() < other.spec_nano() {
                core::cmp::Ordering::Less
            } else if self.spec_nano() > other.spec_nano() {
                core::cmp::Ordering::Greater
            } else {
                core::cmp::Ordering::Equal
            },
        )
    }
}

} // verus!
