use gedcomx_date::{
    Date, DateTime, DateTimeOrDuration, Duration, GedcomxDate, Range, Recurring, Simple, Time,
};

fn date(year: i32, month: Option<u32>, day: Option<u32>) -> Date {
    Date { year, month, day }
}

fn time(
    hours: u32,
    minutes: Option<u32>,
    seconds: Option<u32>,
    tz_offset_hours: Option<i32>,
    tz_offset_minutes: Option<i32>,
) -> Time {
    Time {
        hours,
        minutes,
        seconds,
        tz_offset_hours,
        tz_offset_minutes,
    }
}

fn duration(years: u32, months: u32, days: u32, hours: u32, minutes: u32, seconds: u32) -> Duration {
    Duration {
        years,
        months,
        days,
        hours,
        minutes,
        seconds,
    }
}

#[test]
fn date_text_pads_year_month_and_day() {
    assert_eq!(date(2003, Some(10), Some(12)).to_string(), "+2003-10-12");
    assert_eq!(date(987, Some(4), None).to_string(), "+0987-04");
    assert_eq!(date(0, None, None).to_string(), "+0000");
    assert_eq!(date(-10, None, None).to_string(), "-0010");
    assert_eq!(date(-9999, Some(1), Some(1)).to_string(), "-9999-01-01");
}

#[test]
fn date_text_writes_long_years_in_full() {
    assert_eq!(date(12345, None, None).to_string(), "+12345");
    assert_eq!(date(i32::MAX, None, None).to_string(), "+2147483647");
    assert_eq!(date(i32::MIN, None, None).to_string(), "-2147483648");
}

#[test]
fn date_text_drops_a_day_without_month() {
    assert_eq!(date(1000, None, Some(5)).to_string(), "+1000");
}

#[test]
fn time_text_writes_present_fields_only() {
    assert_eq!(time(3, None, None, None, None).to_string(), "03");
    assert_eq!(time(3, Some(19), None, None, None).to_string(), "03:19");
    assert_eq!(time(23, Some(59), Some(60), None, None).to_string(), "23:59:60");
    assert_eq!(time(24, None, Some(7), None, None).to_string(), "24:07");
}

#[test]
fn time_text_writes_the_timezone() {
    assert_eq!(time(10, None, None, Some(0), Some(0)).to_string(), "10Z");
    assert_eq!(time(10, Some(30), None, Some(-2), Some(0)).to_string(), "10:30-02");
    assert_eq!(time(10, Some(30), None, Some(15), Some(0)).to_string(), "10:30+15");
    assert_eq!(time(10, None, None, Some(5), Some(30)).to_string(), "10+05:30");
    assert_eq!(time(10, None, None, Some(-5), Some(30)).to_string(), "10-05:30");
    assert_eq!(time(10, None, None, Some(-24), Some(59)).to_string(), "10-24:59");
    assert_eq!(time(10, None, None, Some(0), Some(30)).to_string(), "10+00:30");
    assert_eq!(time(10, None, None, None, Some(30)).to_string(), "10");
}

#[test]
fn time_text_writes_the_magnitude_of_offset_minutes() {
    assert_eq!(time(10, None, None, Some(-5), Some(-30)).to_string(), "10-05:30");
    assert_eq!(time(10, None, None, Some(0), Some(-30)).to_string(), "10+00:30");
    assert_eq!(time(10, None, None, Some(5), Some(-1)).to_string(), "10+05:01");
}

#[test]
fn time_text_with_offset_hours_alone() {
    assert_eq!(time(10, None, None, Some(5), None).to_string(), "1005");
    assert_eq!(time(10, None, None, Some(0), None).to_string(), "1000");
    assert_eq!(time(10, None, None, Some(12), None).to_string(), "1012");
    assert_eq!(time(10, None, None, Some(-5), None).to_string(), "10-5");
    assert_eq!(time(10, None, None, Some(-12), None).to_string(), "10-12");
}

#[test]
fn duration_text_skips_zero_components() {
    assert_eq!(duration(0, 0, 0, 0, 0, 0).to_string(), "P");
    assert_eq!(duration(1, 2, 3, 4, 5, 6).to_string(), "P1Y2M3DT4H5M6S");
    assert_eq!(duration(0, 5, 0, 0, 0, 0).to_string(), "P5M");
    assert_eq!(duration(0, 0, 0, 0, 5, 0).to_string(), "PT5M");
    assert_eq!(duration(100, 0, 0, 0, 0, 1000).to_string(), "P100YT1000S");
    assert_eq!(duration(u32::MAX, 0, 0, 0, 0, 0).to_string(), "P4294967295Y");
}

#[test]
fn simple_text() {
    let plain = Simple {
        date: date(1988, Some(3), Some(29)),
        time: Some(time(3, Some(19), None, None, None)),
        approximate: false,
    };
    assert_eq!(plain.to_string(), "+1988-03-29T03:19");
    let approximate = Simple {
        date: date(987, None, None),
        time: None,
        approximate: true,
    };
    assert_eq!(approximate.to_string(), "A+0987");
    assert_eq!(GedcomxDate::Simple(approximate).to_string(), "A+0987");
}

#[test]
fn datetime_text() {
    let dt = DateTime {
        date: date(2000, Some(10), Some(1)),
        time: Some(time(24, None, None, Some(0), Some(0))),
    };
    assert_eq!(dt.to_string(), "+2000-10-01T24Z");
    assert_eq!(DateTimeOrDuration::DateTime(dt).to_string(), "+2000-10-01T24Z");
    assert_eq!(
        DateTimeOrDuration::Duration(duration(0, 0, 7, 0, 0, 0)).to_string(),
        "P7D"
    );
}

#[test]
fn range_text() {
    let start = DateTime {
        date: date(1000, None, None),
        time: None,
    };
    let end = DateTime {
        date: date(2000, Some(10), Some(1)),
        time: None,
    };
    let closed = Range {
        start: Some(start),
        end: Some(DateTimeOrDuration::DateTime(end)),
        approximate: true,
    };
    assert_eq!(closed.to_string(), "A+1000/+2000-10-01");
    let open_end = Range {
        start: Some(start),
        end: None,
        approximate: false,
    };
    assert_eq!(open_end.to_string(), "+1000/");
    let open_start = Range {
        start: None,
        end: Some(DateTimeOrDuration::DateTime(end)),
        approximate: false,
    };
    assert_eq!(open_start.to_string(), "/+2000-10-01");
    let empty = Range {
        start: None,
        end: None,
        approximate: false,
    };
    assert_eq!(empty.to_string(), "/");
    assert_eq!(GedcomxDate::Range(open_end).to_string(), "+1000/");
}

#[test]
fn recurring_text() {
    let start = DateTime {
        date: date(1000, None, None),
        time: None,
    };
    let counted = Recurring {
        start,
        end: DateTimeOrDuration::Duration(duration(1, 2, 3, 4, 5, 6)),
        count: Some(3),
    };
    assert_eq!(counted.to_string(), "R3/+1000/P1Y2M3DT4H5M6S");
    let endless = Recurring {
        start,
        end: DateTimeOrDuration::DateTime(start),
        count: None,
    };
    assert_eq!(endless.to_string(), "R/+1000/+1000");
    let never = Recurring {
        start,
        end: DateTimeOrDuration::DateTime(start),
        count: Some(0),
    };
    assert_eq!(never.to_string(), "R0/+1000/+1000");
    assert_eq!(GedcomxDate::Recurring(endless).to_string(), "R/+1000/+1000");
}
