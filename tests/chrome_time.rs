use chrome_history::chrome_time::{
    from_date, timestamp_supported, to_datetime, Date, DateTime, MAX_TIMESTAMP, MIN_TIMESTAMP,
};

fn date(year: i32, month: u32, day: u32) -> Date {
    Date { year, month, day }
}

#[test]
fn from_date_of_origin_is_zero() {
    assert_eq!(from_date(date(1601, 1, 1)), 0);
}

#[test]
fn from_date_of_unix_epoch() {
    assert_eq!(from_date(date(1970, 1, 1)), 11_644_473_600_000_000);
}

#[test]
fn from_date_of_new_year_2024() {
    assert_eq!(from_date(date(2024, 1, 1)), 13_348_540_800_000_000);
    assert_eq!(from_date(date(2024, 1, 31)), 13_351_132_800_000_000);
}

#[test]
fn from_date_before_origin_is_negative() {
    assert_eq!(from_date(date(1600, 12, 31)), -86_400_000_000);
}

#[test]
fn from_date_counts_leap_days() {
    assert_eq!(from_date(date(2024, 3, 1)) - from_date(date(2024, 2, 28)), 2 * 86_400_000_000);
    assert_eq!(from_date(date(2100, 3, 1)) - from_date(date(2100, 2, 28)), 86_400_000_000);
}

#[test]
fn to_datetime_keeps_time_of_day() {
    let t = to_datetime(13_349_784_600_000_000);
    assert_eq!(
        t,
        DateTime { date: date(2024, 1, 15), hour: 9, minute: 30, second: 0, microsecond: 0 }
    );
}

#[test]
fn to_datetime_before_origin() {
    let t = to_datetime(-1);
    assert_eq!(
        t,
        DateTime {
            date: date(1600, 12, 31),
            hour: 23,
            minute: 59,
            second: 59,
            microsecond: 999_999,
        }
    );
}

#[test]
fn round_trip_gives_midnight_of_each_date() {
    let month_days = [31u32, 28, 31, 30, 31, 30, 31, 31, 30, 31, 30, 31];
    for year in 1970..=2100i32 {
        let leap = (year % 4 == 0 && year % 100 != 0) || year % 400 == 0;
        for month in 1..=12u32 {
            let mut last = month_days[(month - 1) as usize];
            if month == 2 && leap {
                last = 29;
            }
            for day in [1, 15, last] {
                let d = date(year, month, day);
                let t = to_datetime(from_date(d));
                assert_eq!(
                    t,
                    DateTime { date: d, hour: 0, minute: 0, second: 0, microsecond: 0 }
                );
                assert_eq!(from_date(t.date), from_date(d));
            }
        }
    }
}

#[test]
fn supported_timestamps_have_bounds() {
    assert!(timestamp_supported(0));
    assert!(timestamp_supported(MIN_TIMESTAMP));
    assert!(timestamp_supported(MAX_TIMESTAMP));
    assert!(!timestamp_supported(MIN_TIMESTAMP - 1));
    assert!(!timestamp_supported(MAX_TIMESTAMP + 1));
    assert!(!timestamp_supported(i64::MIN));
    let last = to_datetime(MAX_TIMESTAMP);
    assert_eq!(last.date, date(262142, 12, 31));
    assert_eq!(to_datetime(MIN_TIMESTAMP).date, date(-262143, 1, 1));
}

#[test]
fn origin_is_first_of_january_1601() {
    assert_eq!(chrome_history::chrome_time::origin(), date(1601, 1, 1));
    assert_eq!(from_date(chrome_history::chrome_time::origin()), 0);
}
