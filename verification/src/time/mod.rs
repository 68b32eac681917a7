//! Time keeping: instants counted from the Unix epoch and their human
//! readable date form.

pub mod epoch_to_date;
pub mod instant;

pub use instant::Instant;

use vstd::prelude::*;

verus! {

/// A human date, used to display a time.
#[derive(Debug, PartialEq)]
pub struct HumainDate {
    pub year: u64,
    pub month: Month,
    pub day: u8,
    pub week_day: WeekDay,
    pub hour: u8,
    pub minute: u8,
    pub second: u8,
    pub nano: u32,
}

/// A month, used by [`HumainDate`].
#[derive(Debug, PartialEq, Copy, Clone)]
pub enum Month {
    January,
    February,
    March,
    April,
    May,
    June,
    July,
    August,
    September,
    October,
    November,
    December,
}

/// A day of the week, used by [`HumainDate`].
#[derive(Debug, PartialEq, Copy, Clone)]
pub enum WeekDay {
    Sunday,
    Monday,
    Tuesday,
    Wednesday,
    Thursday,
    Friday,
    Saturday,
}

/// One monotonic instant in UTC, seconds and nanoseconds since the epoch
/// (1970).  All values come after the epoch.
#[derive(Debug, Copy, Clone)]
pub struct Time(pub u64, pub u32);

impl Time {
    /// Create a new time from seconds and nanoseconds: whole seconds in the
    /// nanosecond count are carried into the seconds.
    pub fn new(sec: u64, nano: u32) -> (r: Time)
        requires
            sec + nano as int / 1_000_000_000 <= u64::MAX,
        ensures
            r.0 == sec + nano as int / 1_000_000_000,
            r.1 == nano as int % 1_000_000_000,
            r.1 < 1_000_000_000,
    {
        Time(sec + (nano / 1_000_000_000) as u64, nano % 1_000_000_000)
    }
}

impl PartialEq for Time {
    /// Two times are equal when their seconds and nanoseconds are.
    fn eq(&self, other: &Self) -> (r: bool) {
        self.0 == other.0 && self.1 == other.1
    }
}

impl vstd::std_specs::cmp::PartialEqSpecImpl for Time {
    open spec fn obeys_eq_spec() -> bool {
        true
    }

    open spec fn eq_spec(&self, other: &Time) -> bool {
        self.0 == other.0 && self.1 == other.1
    }
}

impl Eq for Time {

}

impl PartialOrd for Time {
    /// Times are ordered by seconds, then by nanoseconds.
    fn partial_cmp(&self, other: &Self) -> (r: Option<core::cmp::Ordering>) {
        Some(
            if self.0 < other.0 {
                core::cmp::Ordering::Less
            } else if self.0 > other.0 {
                core::cmp::Ordering::Greater
            } else if self.1 < other.1 {
                core::cmp::Ordering::Less
            } else if self.1 > other.1 {
                core::cmp::Ordering::Greater
            } else {
                core::cmp::Ordering::Equal
            },
        )
    }
}

impl vstd::std_specs::cmp::PartialOrdSpecImpl for Time {
    open spec fn obeys_partial_cmp_spec() -> bool {
        true
    }

    open spec fn partial_cmp_spec(&self, other: &Time) -> Option<core::cmp::Ordering> {
        Some(
            if self.0 < other.0 {
                core::cmp::Ordering::Less
            } else if self.0 > other.0 {
                core::cmp::Ordering::Greater
            } else if self.1 < other.1 {
                core::cmp::Ordering::Less
            } else if self.1 > other.1 {
                core::cmp::Ordering::Greater
            } else {
                core::cmp::Ordering::Equal
            },
        )
    }
}

} // verus!
