use gedcomx_date::duration::duration;
use gedcomx_date::simple::{datetime, parse_time, ymd};
use gedcomx_date::{
    parse, Date, DateTime, DateTimeOrDuration, Duration, GedcomxDate, Range, Recurring, Simple,
    Time,
};

fn dates() -> Vec<Date> {
    vec![
        Date { year: 0, month: None, day: None },
        Date { year: 1, month: Some(1), day: None },
        Date { year: -1, month: Some(12), day: Some(31) },
        Date { year: 9999, month: Some(2), day: Some(30) },
        Date { year: -9999, month: Some(10), day: Some(1) },
        Date { year: 2003, month: Some(10), day: Some(12) },
    ]
}

fn times() -> Vec<Option<Time>> {
    let mut all = vec![None];
    let fields = [
        (0, None, None),
        (24, Some(0), None),
        (23, Some(59), Some(60)),
        (9, Some(5), Some(0)),
    ];
    let zones = [
        (None, None),
        (Some(0), Some(0)),
        (Some(0), Some(30)),
        (Some(5), Some(0)),
        (Some(-5), Some(0)),
        (Some(24), Some(59)),
        (Some(-5), Some(30)),
        (Some(24), Some(0)),
        (Some(-24), Some(59)),
        (Some(-1), Some(1)),
    ];
    for (hours, minutes, seconds) in fields {
        for (tz_offset_hours, tz_offset_minutes) in zones {
            all.push(Some(Time {
                hours,
                minutes,
                seconds,
                tz_offset_hours,
                tz_offset_minutes,
            }));
        }
    }
    all
}

fn datetimes() -> Vec<DateTime> {
    let mut all = Vec::new();
    for date in dates() {
        for time in times() {
            all.push(DateTime { date, time });
        }
    }
    all
}

fn durations() -> Vec<Duration> {
    let mut all = Vec::new();
    let values = [0, 1, 10, u32::MAX];
    for (n, years) in values.iter().enumerate() {
        for months in [0, 7] {
            for seconds in [0, 4000000000] {
                all.push(Duration {
                    years: *years,
                    months,
                    days: values[(n + 1) % 4],
                    hours: values[(n + 2) % 4],
                    minutes: months * 3,
                    seconds,
                });
            }
        }
    }
    all
}

fn ends() -> Vec<DateTimeOrDuration> {
    let mut all = Vec::new();
    for dt in datetimes() {
        all.push(DateTimeOrDuration::DateTime(dt));
    }
    for d in durations() {
        all.push(DateTimeOrDuration::Duration(d));
    }
    all
}

#[test]
fn simple_dates_read_back() {
    for dt in datetimes() {
        for approximate in [false, true] {
            let value = GedcomxDate::Simple(Simple {
                date: dt.date,
                time: dt.time,
                approximate,
            });
            assert_eq!(parse(&value.to_string()), Ok(value));
        }
    }
}

#[test]
fn closed_ranges_read_back() {
    let starts = datetimes();
    for (n, end) in ends().into_iter().enumerate() {
        let value = GedcomxDate::Range(Range {
            start: Some(starts[n % starts.len()]),
            end: Some(end),
            approximate: n % 2 == 0,
        });
        assert_eq!(parse(&value.to_string()), Ok(value));
    }
}

#[test]
fn open_ranges_read_back() {
    for (n, dt) in datetimes().into_iter().enumerate() {
        let open_end = GedcomxDate::Range(Range {
            start: Some(dt),
            end: None,
            approximate: n % 2 == 0,
        });
        assert_eq!(parse(&open_end.to_string()), Ok(open_end));
        let open_start = GedcomxDate::Range(Range {
            start: None,
            end: Some(DateTimeOrDuration::DateTime(dt)),
            approximate: n % 2 == 1,
        });
        assert_eq!(parse(&open_start.to_string()), Ok(open_start));
    }
}

#[test]
fn recurring_dates_read_back() {
    let starts = datetimes();
    let counts = [None, Some(0), Some(3), Some(u32::MAX)];
    for (n, end) in ends().into_iter().enumerate() {
        let value = GedcomxDate::Recurring(Recurring {
            start: starts[(n * 7) % starts.len()],
            end,
            count: counts[n % 4],
        });
        assert_eq!(parse(&value.to_string()), Ok(value));
    }
}

#[test]
fn offset_written_with_a_minus_before_zero_hours_reads_back() {
    let value = parse("+1000-01-01T23:15-00:30").unwrap();
    let time = value.get_simple_date().unwrap().time.unwrap();
    assert_eq!(time.tz_offset_hours, Some(0));
    assert_eq!(time.tz_offset_minutes, Some(30));
    assert_eq!(value.to_string(), "+1000-01-01T23:15+00:30");
    assert_eq!(parse(&value.to_string()), Ok(value));
}

#[test]
fn parsed_values_read_back_from_their_own_text() {
    let texts = [
        "+1000T10-00:30",
        "+1000T10-05:30",
        "A+1988-03-29T24:59:60-24:59",
        "+1000T10-0530/+2000T10+0530",
        "/-0001-12-31T00-00",
        "+1000-02-30T23:59-01:01/",
        "R12/-9999T10-00:01/PT0S",
        "R/+1000T10Z/+1000T10-10:10",
    ];
    for text in texts {
        let value = parse(text).unwrap();
        assert_eq!(parse(&value.to_string()), Ok(value));
    }
}

#[test]
fn parsed_text_is_written_in_canonical_form() {
    let cases = [
        ("+1000-01-01T23:15-00", "+1000-01-01T23:15Z"),
        ("+1000T10+0530", "+1000T10+05:30"),
        ("+1000T10-0530", "+1000T10-05:30"),
        ("+1000T10-00:30", "+1000T10+00:30"),
        ("-0000", "+0000"),
        ("+1000/P0Y0M0DT0H0M0S", "+1000/P"),
        ("R007/+1000/PT05M", "R7/+1000/PT5M"),
        ("A+1988-03-29T03:19:00Z", "A+1988-03-29T03:19:00Z"),
    ];
    for (text, canonical) in cases {
        let value = parse(text).unwrap();
        assert_eq!(value.to_string(), canonical);
        assert_eq!(parse(canonical), Ok(value));
    }
}

#[test]
fn dates_times_and_durations_read_back() {
    for date in dates() {
        assert_eq!(ymd(&date.to_string()), Ok(("", date)));
    }
    for time in times().into_iter().flatten() {
        assert_eq!(parse_time(&time.to_string()), Ok(("", time)));
    }
    for dt in datetimes() {
        assert_eq!(datetime(&dt.to_string()), Ok(("", dt)));
    }
    for d in durations() {
        assert_eq!(duration(&d.to_string()), Ok(("", d)));
    }
}

#[test]
fn long_years_do_not_read_back() {
    let date = Date { year: 12345, month: None, day: None };
    assert_eq!(date.to_string(), "+12345");
    assert_eq!(
        ymd(&date.to_string()),
        Ok(("5", Date { year: 1234, month: None, day: None }))
    );
    assert!(parse(&date.to_string()).is_err());
}
