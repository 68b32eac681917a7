//! Gregorian date of a day count since the Unix epoch.

use super::Month;
use super::WeekDay;
use vstd::prelude::*;

verus! {

/// Whether `year` is a Gregorian leap year.
pub open spec fn is_leap_year(year: int) -> bool {
    (year % 4 == 0 && year % 100 != 0) || year % 400 == 0
}

/// The number of days of `m` in `year`.
pub open spec fn days_in_month(year: int, m: Month) -> int {
    match m {
        Month::January => 31,
        Month::February => if is_leap_year(year) {
            29
        } else {
            28
        },
        Month::March => 31,
        Month::April => 30,
        Month::May => 31,
        Month::June => 30,
        Month::July => 31,
        Month::August => 31,
        Month::September => 30,
        Month::October => 31,
        Month::November => 30,
        Month::December => 31,
    }
}

/// The day of the week `days` days after the epoch, which was a Thursday.
pub open spec fn weekday_of(days: int) -> WeekDay {
    let r = days % 7;
    if r == 0 {
        WeekDay::Thursday
    } else if r == 1 {
        WeekDay::Friday
    } else if r == 2 {
        WeekDay::Saturday
    } else if r == 3 {
        WeekDay::Sunday
    } else if r == 4 {
        WeekDay::Monday
    } else if r == 5 {
        WeekDay::Tuesday
    } else {
        WeekDay::Wednesday
    }
}

/// Days in the 400 year Gregorian cycle.
pub const DAYS_IN_400_YEARS: u64 = 146097;

/// Days in a 4 year cycle with one leap day.
pub const DAYS_IN_4_YEARS: u64 = 1461;

/// Return `(year, month, day, week_day)` for the day count `days_since_epoch`
/// since 1970-01-01: the week day is exact (the epoch was a Thursday) and
/// the date is a valid Gregorian date of a year from 1970 on.
pub fn epoch_to_date(days_since_epoch: u64) -> (r: (u64, Month, u8, WeekDay))
    ensures
        r.3 == weekday_of(days_since_epoch as int),
        r.0 >= 1970,
        1 <= r.2 <= days_in_month(r.0 as int, r.1),
{
    let week_day = match days_since_epoch % 7 {
        0 => WeekDay::Thursday,
        1 => WeekDay::Friday,
        2 => WeekDay::Saturday,
        3 => WeekDay::Sunday,
        4 => WeekDay::Monday,
        5 => WeekDay::Tuesday,
        _ => WeekDay::Wednesday,
    };

    let mut days_in_cycle = days_since_epoch % DAYS_IN_400_YEARS;
    if days_in_cycle >= 332 * 365 + 332 / 4 - 2 {
        days_in_cycle = days_in_cycle + 3;
    } else if days_in_cycle >= 232 * 365 + 232 / 4 - 1 {
        days_in_cycle = days_in_cycle + 2;
    } else if days_in_cycle >= 132 * 365 + 132 / 4 {
        days_in_cycle = days_in_cycle + 1;
    }
    proof {
        assert(days_since_epoch / 146097 <= 126296703178466);
        assert(days_in_cycle / 1461 <= 101);
    }
    let mut year = 1970 + days_since_epoch / DAYS_IN_400_YEARS * 400 + days_in_cycle
        / DAYS_IN_4_YEARS * 4;

    let mut day = days_in_cycle % DAYS_IN_4_YEARS;
    let ghost year0 = year;
    loop
        invariant_except_break
            day < DAYS_IN_4_YEARS,
            year0 <= year,
            year - year0 <= 4,
            365 * (year - year0) + day <= 1464,
            1970 <= year0 <= 50518681271387000,
        ensures
            year >= 1970,
            (day < 366 && ((year % 4 == 0 && year % 100 != 0) || year % 400 == 0)) || (day < 365
                && !((year % 4 == 0 && year % 100 != 0) || year % 400 == 0)),
        decreases day,
    {
        if (year % 4 == 0 && year % 100 != 0) || year % 400 == 0 {
            if day < 366 {
                break;
            }
            day = day - 366;
        } else {
            if day < 365 {
                break;
            }
            day = day - 365;
        }
        year = year + 1;
    }

    if (year % 4 == 0 && year % 100 != 0) || year % 400 == 0 {
        // Leap year.
        if day > 31 + 29 - 1 {
            // After the leap day; pretend it was not there.
            day = day - 1;
        } else if day == 31 + 29 - 1 {
            // The leap day itself.
            return (year, Month::February, 29, week_day);
        }
    }

    let month: Month;
    if day < 31 {
        month = Month::January;
    } else if day < 31 + 28 {
        month = Month::February;
        day = day - 31;
    } else if day < 31 + 28 + 31 {
        month = Month::March;
        day = day - (31 + 28);
    } else if day < 31 + 28 + 31 + 30 {
        month = Month::April;
        day = day - (31 + 28 + 31);
    } else if day < 31 + 28 + 31 + 30 + 31 {
        month = Month::May;
        day = day - (31 + 28 + 31 + 30);
    } else if day < 31 + 28 + 31 + 30 + 31 + 30 {
        month = Month::June;
        day = day - (31 + 28 + 31 + 30 + 31);
    } else if day < 31 + 28 + 31 + 30 + 31 + 30 + 31 {
        month = Month::July;
        day = day - (31 + 28 + 31 + 30 + 31 + 30);
    } else if day < 31 + 28 + 31 + 30 + 31 + 30 + 31 + 31 {
        month = Month::August;
        day = day - (31 + 28 + 31 + 30 + 31 + 30 + 31);
    } else if day < 31 + 28 + 31 + 30 + 31 + 30 + 31 + 31 + 30 {
        month = Month::September;
        day = day - (31 + 28 + 31 + 30 + 31 + 30 + 31 + 31);
    } else if day < 31 + 28 + 31 + 30 + 31 + 30 + 31 + 31 + 30 + 31 {
        month = Month::October;
        day = day - (31 + 28 + 31 + 30 + 31 + 30 + 31 + 31 + 30);
    } else if day < 31 + 28 + 31 + 30 + 31 + 30 + 31 + 31 + 30 + 31 + 30 {
        month = Month::November;
        day = day - (31 + 28 + 31 + 30 + 31 + 30 + 31 + 31 + 30 + 31);
    } else {
        month = Month::December;
        day = day - (31 + 28 + 31 + 30 + 31 + 30 + 31 + 31 + 30 + 31 + 30);
    }

    (year, month, day as u8 + 1, week_day)
}

} // verus!
