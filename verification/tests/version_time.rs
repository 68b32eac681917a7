//! Tests of the version header detection and of the time keeping.

use cage::configuration::version::Version;
use cage::time::Instant;
use cage::time::HumainDate;
use cage::time::Month;
use cage::time::Time;
use cage::time::WeekDay;

#[test]
fn version_get() {
    let (v, f, l) = Version::get(
        "# bla bla\n\n\t    # sperate comment\n\nCAGE-BUILD-0\n\n\nThe rest of the\nconfig file\n...\n",
    )
    .unwrap();

    assert_eq!(Version::V0, v);
    assert_eq!(6, l);
    assert_eq!("\n\nThe rest of the\nconfig file\n...\n", f);

    let (v, f, l) = Version::get("CAGE-BUILD-0 # bla bla\n").unwrap();

    assert_eq!(Version::V0, v);
    assert_eq!(2, l);
    assert_eq!("", f);
}

#[test]
fn version_not_found_and_unknown() {
    assert!(Version::get("").is_err());
    assert!(Version::get("# only comments\n").is_err());
    // A header without a line break is not a header.
    assert!(Version::get("CAGE-BUILD-0").is_err());
    match Version::get("CAGE-BUILD-9\nrest\n") {
        Err(cage::configuration::ConfigurationError::VersionUnknown(h)) => {
            assert_eq!("CAGE-BUILD-9", h.as_str())
        }
        other => panic!("expected an unknown version, got {:?}", other),
    }
}

#[test]
fn time_new() {
    assert_eq!(
        Time(1633111375, 123_456_789),
        Time::new(1633111372, 3_123_456_789)
    );
}

#[test]
fn time_cmp() {
    let sec = 1633111372;
    assert_eq!(true, Time(sec, 135) == Time(sec, 135));
    assert_eq!(false, Time(sec + 1, 135) == Time(sec, 135));
    assert_eq!(false, Time(sec, 135 + 1) == Time(sec, 135));

    assert_eq!(false, Time(sec, 135) != Time(sec, 135));
    assert_eq!(true, Time(sec + 1, 135) != Time(sec, 135));
    assert_eq!(true, Time(sec, 135 + 1) != Time(sec, 135));

    assert_eq!(true, Time(sec, 135 + 1) > Time(sec, 135));
    assert_eq!(true, Time(sec + 1, 135) > Time(sec, 135));
}

#[test]
fn instant_new() {
    assert_eq!(
        Instant::unix(1633111375, 123_456_789),
        Instant::unix(1633111372, 3_123_456_789)
    );
}

#[test]
fn test_instant2humain_date() {
    // A date far in the future; the clock and calendar fields are exact.
    assert_eq!(
        HumainDate {
            year: 2800,
            month: Month::March,
            day: 19,
            week_day: WeekDay::Sunday,
            hour: 0,
            minute: 39,
            second: 51,
            nano: 123_456_789,
        },
        Instant::unix(26198987991, 123_456_789).humain_date(),
    );
}

#[test]
fn humain_date_epoch() {
    // The epoch itself: 1970-01-01 was a Thursday.
    assert_eq!(
        HumainDate {
            year: 1970,
            month: Month::January,
            day: 1,
            week_day: WeekDay::Thursday,
            hour: 0,
            minute: 0,
            second: 0,
            nano: 0,
        },
        Instant::unix(0, 0).humain_date(),
    );
}

#[test]
fn humain_date_leap_day() {
    // 2000-02-29 12:30:15, a leap day of a century leap year.
    let days: u64 = 11016;
    let seconds = days * 86400 + 12 * 3600 + 30 * 60 + 15;
    assert_eq!(
        HumainDate {
            year: 2000,
            month: Month::February,
            day: 29,
            week_day: WeekDay::Tuesday,
            hour: 12,
            minute: 30,
            second: 15,
            nano: 0,
        },
        Instant::unix(seconds, 0).humain_date(),
    );
}

#[test]
fn instant_cmp() {
    let sec = 1633111372;
    assert_eq!(true, Instant::unix(sec, 135) == Instant::unix(sec, 135));
    assert_eq!(
        false,
        Instant::unix(sec + 1, 135) == Instant::unix(sec, 135)
    );
    assert_eq!(
        false,
        Instant::unix(sec, 135 + 1) == Instant::unix(sec, 135)
    );

    assert_eq!(false, Instant::unix(sec, 135) != Instant::unix(sec, 135));
    assert_eq!(true, Instant::unix(sec + 1, 135) != Instant::unix(sec, 135));
    assert_eq!(true, Instant::unix(sec, 135 + 1) != Instant::unix(sec, 135));

    assert_eq!(true, Instant::unix(sec, 135 + 1) > Instant::unix(sec, 135));
    assert_eq!(true, Instant::unix(sec + 1, 135) > Instant::unix(sec, 135));
}
