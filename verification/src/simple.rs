//! Dates, times of day, timezone offsets and the simple date built of them.

use vstd::prelude::*;
use crate::scan::{
    agrees, bounded_pair, bounded_pair_spec, digit_of, digit_value, is_digit, is_digit_char,
    literal, literal_spec, or_else, skip, Matched, NoMatch, Outcome,
};
use crate::{Date, DateTime, GedcomxDate, Simple, Time};
use vstd::string::*;

verus! {

/// The approximate marker `A`.
pub open spec fn approximate_spec(s: Seq<char>) -> Outcome<bool> {
    match literal_spec(s, 'A') {
        Some((rest, _)) => Some((rest, true)),
        None => None,
    }
}

/// The sign in front of a year: `+` or `-`.
pub open spec fn year_prefix_spec(s: Seq<char>) -> Outcome<char> {
    or_else(literal_spec(s, '+'), literal_spec(s, '-'))
}

/// Exactly four ASCII digits, read as a decimal number.
pub open spec fn take_4_digits_spec(s: Seq<char>) -> Outcome<u32> {
    if s.len() >= 4 && is_digit(s[0]) && is_digit(s[1]) && is_digit(s[2]) && is_digit(s[3]) {
        Some(
            (
                s.skip(4),
                (1000 * digit_value(s[0]) + 100 * digit_value(s[1]) + 10 * digit_value(s[2])
                    + digit_value(s[3])) as u32,
            ),
        )
    } else {
        None
    }
}

/// A signed year: a sign and exactly four digits.
pub open spec fn year_spec(s: Seq<char>) -> Outcome<i32> {
    match year_prefix_spec(s) {
        Some((r1, prefix)) => match take_4_digits_spec(r1) {
            Some((r2, v)) => Some((r2, if prefix == '-' { (-(v as int)) as i32 } else { v as i32 })),
            None => None,
        },
        None => None,
    }
}

/// A month: two digits, 01 to 12.
pub open spec fn month_spec(s: Seq<char>) -> Outcome<u32> {
    bounded_pair_spec(s, 1, 12)
}

/// A day: two digits, 01 to 31, whatever the month.
pub open spec fn day_spec(s: Seq<char>) -> Outcome<u32> {
    bounded_pair_spec(s, 1, 31)
}

/// The form `YYYY-MM-DD`.
pub open spec fn yyyymmdd_spec(s: Seq<char>) -> Outcome<Date> {
    match yyyymm_spec(s) {
        Some((r1, ym)) => match literal_spec(r1, '-') {
            Some((r2, _)) => match day_spec(r2) {
                Some((r3, d)) => Some((r3, Date { year: ym.year, month: ym.month, day: Some(d) })),
                None => None,
            },
            None => None,
        },
        None => None,
    }
}

/// The form `YYYY-MM`.
pub open spec fn yyyymm_spec(s: Seq<char>) -> Outcome<Date> {
    match year_spec(s) {
        Some((r1, y)) => match literal_spec(r1, '-') {
            Some((r2, _)) => match month_spec(r2) {
                Some((r3, m)) => Some((r3, Date { year: y, month: Some(m), day: None })),
                None => None,
            },
            None => None,
        },
        None => None,
    }
}

/// The form `YYYY`.
pub open spec fn yyyy_spec(s: Seq<char>) -> Outcome<Date> {
    match year_spec(s) {
        Some((r1, y)) => Some((r1, Date { year: y, month: None, day: None })),
        None => None,
    }
}

/// A date: the most specific of the three forms that matches.
pub open spec fn ymd_spec(s: Seq<char>) -> Outcome<Date> {
    or_else(yyyymmdd_spec(s), or_else(yyyymm_spec(s), yyyy_spec(s)))
}

/// An hour: two digits, 00 to 24.
pub open spec fn hour_spec(s: Seq<char>) -> Outcome<u32> {
    bounded_pair_spec(s, 0, 24)
}

/// A minute: two digits, 00 to 59.
pub open spec fn minute_spec(s: Seq<char>) -> Outcome<u32> {
    bounded_pair_spec(s, 0, 59)
}

/// A second: two digits, 00 to 60, the last for a leap second.
pub open spec fn second_spec(s: Seq<char>) -> Outcome<u32> {
    bounded_pair_spec(s, 0, 60)
}

/// The form `HH:MM:SS`.
pub open spec fn hhmmss_spec(s: Seq<char>) -> Outcome<(u32, Option<u32>, Option<u32>)> {
    match hhmm_spec(s) {
        Some((r1, hm)) => match literal_spec(r1, ':') {
            Some((r2, _)) => match second_spec(r2) {
                Some((r3, sec)) => Some((r3, (hm.0, hm.1, Some(sec)))),
                None => None,
            },
            None => None,
        },
        None => None,
    }
}

/// The form `HH:MM`.
pub open spec fn hhmm_spec(s: Seq<char>) -> Outcome<(u32, Option<u32>, Option<u32>)> {
    match hour_spec(s) {
        Some((r1, h)) => match literal_spec(r1, ':') {
            Some((r2, _)) => match minute_spec(r2) {
                Some((r3, m)) => Some((r3, (h, Some(m), None))),
                None => None,
            },
            None => None,
        },
        None => None,
    }
}

/// The form `HH`.
pub open spec fn hh_spec(s: Seq<char>) -> Outcome<(u32, Option<u32>, Option<u32>)> {
    match hour_spec(s) {
        Some((r1, h)) => Some((r1, (h, None, None))),
        None => None,
    }
}

/// Hours, minutes and seconds: the most specific of the three forms that
/// matches.
pub open spec fn hms_spec(s: Seq<char>) -> Outcome<(u32, Option<u32>, Option<u32>)> {
    or_else(hhmmss_spec(s), or_else(hhmm_spec(s), hh_spec(s)))
}

/// A sign: `+` stands for 1 and `-` for -1.
pub open spec fn sign_spec(s: Seq<char>) -> Outcome<i32> {
    match or_else(literal_spec(s, '-'), literal_spec(s, '+')) {
        Some((rest, c)) => Some((rest, if c == '+' { 1i32 } else { -1i32 })),
        None => None,
    }
}

/// `magnitude` with the sign of `sign`.
pub open spec fn with_sign(sign: i32, magnitude: u32) -> i32 {
    if sign < 0 {
        (-(magnitude as int)) as i32
    } else {
        magnitude as i32
    }
}

/// The minutes of a timezone offset: a minute, with or without a colon in
/// front of it. Where no minute follows, nothing is consumed, not even a
/// colon, and the minutes are zero.
pub open spec fn timezone_minute_spec(s: Seq<char>) -> Outcome<u32> {
    let start = match literal_spec(s, ':') {
        Some((rest, _)) => rest,
        None => s,
    };
    match minute_spec(start) {
        Some((rest, m)) => Some((rest, m)),
        None => Some((s, 0u32)),
    }
}

/// A signed timezone offset: sign, hour and optional minutes. The sign
/// applies to the hours; the minutes are a number from 0 to 59.
pub open spec fn timezone_hour_spec(s: Seq<char>) -> Outcome<(Option<i32>, Option<i32>)> {
    match sign_spec(s) {
        Some((r1, sg)) => match hour_spec(r1) {
            Some((r2, h)) => match timezone_minute_spec(r2) {
                Some((r3, m)) => Some((r3, (Some(with_sign(sg, h)), Some(m as i32)))),
                None => None,
            },
            None => None,
        },
        None => None,
    }
}

/// The timezone designator `Z`: an offset of zero hours and zero minutes.
pub open spec fn timezone_utc_spec(s: Seq<char>) -> Outcome<(Option<i32>, Option<i32>)> {
    match literal_spec(s, 'Z') {
        Some((rest, _)) => Some((rest, (Some(0i32), Some(0i32)))),
        None => None,
    }
}

/// An optional timezone: a signed offset, else `Z`, else nothing, which
/// consumes no input and leaves both offset fields absent.
pub open spec fn optional_timezone_spec(s: Seq<char>) -> (Seq<char>, (Option<i32>, Option<i32>)) {
    match or_else(timezone_hour_spec(s), timezone_utc_spec(s)) {
        Some((rest, tz)) => (rest, tz),
        None => (s, (None, None)),
    }
}

/// A time of day: hours, minutes and seconds, then an optional timezone.
/// Without a timezone both offset fields are absent.
pub open spec fn parse_time_spec(s: Seq<char>) -> Outcome<Time> {
    match hms_spec(s) {
        Some((r1, hms)) => {
            let (rest, tz) = optional_timezone_spec(r1);
            Some(
                (
                    rest,
                    Time {
                        hours: hms.0,
                        minutes: hms.1,
                        seconds: hms.2,
                        tz_offset_hours: tz.0,
                        tz_offset_minutes: tz.1,
                    },
                ),
            )
        },
        None => None,
    }
}

/// The letter `T` and a time of day.
pub open spec fn time_piece_spec(s: Seq<char>) -> Outcome<Time> {
    match literal_spec(s, 'T') {
        Some((r1, _)) => parse_time_spec(r1),
        None => None,
    }
}

/// A date, optionally followed by `T` and a time of day.
pub open spec fn datetime_spec(s: Seq<char>) -> Outcome<DateTime> {
    match ymd_spec(s) {
        Some((r1, d)) => match time_piece_spec(r1) {
            Some((r2, t)) => Some((r2, DateTime { date: d, time: Some(t) })),
            None => Some((r1, DateTime { date: d, time: None })),
        },
        None => None,
    }
}

/// A simple date: an optional approximate marker and a date with optional
/// time.
pub open spec fn simple_date_spec(s: Seq<char>) -> Outcome<GedcomxDate> {
    let (r1, approximate) = match approximate_spec(s) {
        Some((r1, _)) => (r1, true),
        None => (s, false),
    };
    match datetime_spec(r1) {
        Some((r2, dt)) => Some(
            (r2, GedcomxDate::Simple(Simple { date: dt.date, time: dt.time, approximate })),
        ),
        None => None,
    }
}

/// Recognizes the approximate marker.
pub fn approximate<'a>(i: &'a str) -> (r: Matched<'a, bool>)
    ensures
        agrees(r, approximate_spec(i@)),
{
    let (rest, _) = literal(i, 'A')?;
    Ok((rest, true))
}

/// Recognizes the sign in front of a year.
pub fn year_prefix<'a>(i: &'a str) -> (r: Matched<'a, char>)
    ensures
        agrees(r, year_prefix_spec(i@)),
{
    match literal(i, '+') {
        Ok(m) => Ok(m),
        Err(_) => literal(i, '-'),
    }
}

/// Recognizes exactly four ASCII digits and returns their decimal value.
pub fn take_4_digits<'a>(i: &'a str) -> (r: Matched<'a, u32>)
    ensures
        agrees(r, take_4_digits_spec(i@)),
{
    if i.unicode_len() < 4 {
        return Err(NoMatch);
    }
    let a = i.get_char(0);
    let b = i.get_char(1);
    let c = i.get_char(2);
    let d = i.get_char(3);
    if is_digit_char(a) && is_digit_char(b) && is_digit_char(c) && is_digit_char(d) {
        let v: u32 = 1000 * digit_of(a) + 100 * digit_of(b) + 10 * digit_of(c) + digit_of(d);
        Ok((skip(i, 4), v))
    } else {
        Err(NoMatch)
    }
}

/// Recognizes a signed four-digit year.
pub fn year<'a>(i: &'a str) -> (r: Matched<'a, i32>)
    ensures
        agrees(r, year_spec(i@)),
{
    let (r1, prefix) = year_prefix(i)?;
    let (r2, v) = take_4_digits(r1)?;
    let year: i32 = if prefix == '-' {
        -(v as i32)
    } else {
        v as i32
    };
    Ok((r2, year))
}

/// Recognizes a month.
pub fn month<'a>(i: &'a str) -> (r: Matched<'a, u32>)
    ensures
        agrees(r, month_spec(i@)),
{
    bounded_pair(i, 1, 12)
}

/// Recognizes a day of the month.
pub fn day<'a>(i: &'a str) -> (r: Matched<'a, u32>)
    ensures
        agrees(r, day_spec(i@)),
{
    bounded_pair(i, 1, 31)
}

/// Recognizes `YYYY-MM-DD`.
pub fn yyyymmdd<'a>(i: &'a str) -> (r: Matched<'a, Date>)
    ensures
        agrees(r, yyyymmdd_spec(i@)),
{
    let (r1, ym) = yyyymm(i)?;
    let (r2, _) = literal(r1, '-')?;
    let (r3, d) = day(r2)?;
    Ok((r3, Date { year: ym.year, month: ym.month, day: Some(d) }))
}

/// Recognizes `YYYY-MM`.
pub fn yyyymm<'a>(i: &'a str) -> (r: Matched<'a, Date>)
    ensures
        agrees(r, yyyymm_spec(i@)),
{
    let (r1, y) = year(i)?;
    let (r2, _) = literal(r1, '-')?;
    let (r3, m) = month(r2)?;
    Ok((r3, Date { year: y, month: Some(m), day: None }))
}

/// Recognizes `YYYY`.
pub fn yyyy<'a>(i: &'a str) -> (r: Matched<'a, Date>)
    ensures
        agrees(r, yyyy_spec(i@)),
{
    let (r1, y) = year(i)?;
    Ok((r1, Date { year: y, month: None, day: None }))
}

/// Recognizes a date, trying the most specific form first.
pub fn ymd<'a>(i: &'a str) -> (r: Matched<'a, Date>)
    ensures
        agrees(r, ymd_spec(i@)),
{
    match yyyymmdd(i) {
        Ok(m) => Ok(m),
        Err(_) => match yyyymm(i) {
            Ok(m) => Ok(m),
            Err(_) => yyyy(i),
        },
    }
}

/// Recognizes a date.
pub fn parse_date<'a>(i: &'a str) -> (r: Matched<'a, Date>)
    ensures
        agrees(r, ymd_spec(i@)),
{
    ymd(i)
}

/// Recognizes an hour.
pub fn hour<'a>(i: &'a str) -> (r: Matched<'a, u32>)
    ensures
        agrees(r, hour_spec(i@)),
{
    bounded_pair(i, 0, 24)
}

/// Recognizes a two-digit number below sixty.
pub fn below_sixty<'a>(i: &'a str) -> (r: Matched<'a, u32>)
    ensures
        agrees(r, bounded_pair_spec(i@, 0, 59)),
{
    bounded_pair(i, 0, 59)
}

/// Recognizes a two-digit number up to sixty.
pub fn upto_sixty<'a>(i: &'a str) -> (r: Matched<'a, u32>)
    ensures
        agrees(r, bounded_pair_spec(i@, 0, 60)),
{
    bounded_pair(i, 0, 60)
}

/// Recognizes a minute.
pub fn minute<'a>(i: &'a str) -> (r: Matched<'a, u32>)
    ensures
        agrees(r, minute_spec(i@)),
{
    below_sixty(i)
}

/// Recognizes a second.
pub fn second<'a>(i: &'a str) -> (r: Matched<'a, u32>)
    ensures
        agrees(r, second_spec(i@)),
{
    upto_sixty(i)
}

/// Recognizes `HH:MM:SS`.
pub fn hhmmss<'a>(i: &'a str) -> (r: Matched<'a, (u32, Option<u32>, Option<u32>)>)
    ensures
        agrees(r, hhmmss_spec(i@)),
{
    let (r1, hm) = hhmm(i)?;
    let (r2, _) = literal(r1, ':')?;
    let (r3, sec) = second(r2)?;
    Ok((r3, (hm.0, hm.1, Some(sec))))
}

/// Recognizes `HH:MM`.
pub fn hhmm<'a>(i: &'a str) -> (r: Matched<'a, (u32, Option<u32>, Option<u32>)>)
    ensures
        agrees(r, hhmm_spec(i@)),
{
    let (r1, h) = hour(i)?;
    let (r2, _) = literal(r1, ':')?;
    let (r3, m) = minute(r2)?;
    Ok((r3, (h, Some(m), None)))
}

/// Recognizes `HH`.
pub fn hh<'a>(i: &'a str) -> (r: Matched<'a, (u32, Option<u32>, Option<u32>)>)
    ensures
        agrees(r, hh_spec(i@)),
{
    let (r1, h) = hour(i)?;
    Ok((r1, (h, None, None)))
}

/// Recognizes hours, minutes and seconds, trying the most specific form
/// first.
pub fn hms<'a>(i: &'a str) -> (r: Matched<'a, (u32, Option<u32>, Option<u32>)>)
    ensures
        agrees(r, hms_spec(i@)),
{
    match hhmmss(i) {
        Ok(m) => Ok(m),
        Err(_) => match hhmm(i) {
            Ok(m) => Ok(m),
            Err(_) => hh(i),
        },
    }
}

/// Recognizes a sign.
pub fn sign<'a>(i: &'a str) -> (r: Matched<'a, i32>)
    ensures
        agrees(r, sign_spec(i@)),
{
    let (rest, c) = match literal(i, '-') {
        Ok(m) => m,
        Err(_) => literal(i, '+')?,
    };
    let value: i32 = if c == '+' {
        1
    } else {
        -1
    };
    Ok((rest, value))
}

/// Gives `magnitude` the sign of `sign`.
pub fn apply_sign(sign: i32, magnitude: u32) -> (v: i32)
    requires
        magnitude <= i32::MAX,
    ensures
        v == with_sign(sign, magnitude),
{
    if sign < 0 {
        -(magnitude as i32)
    } else {
        magnitude as i32
    }
}

/// Recognizes the minutes of a timezone offset. Never fails: where no minute
/// follows, the whole input is left and the minutes are zero.
pub fn timezone_minute<'a>(i: &'a str) -> (r: Matched<'a, u32>)
    ensures
        agrees(r, timezone_minute_spec(i@)),
        r is Ok,
{
    let start = match literal(i, ':') {
        Ok((rest, _)) => rest,
        Err(_) => i,
    };
    match minute(start) {
        Ok(m) => Ok(m),
        Err(_) => Ok((i, 0)),
    }
}

/// Recognizes a signed timezone offset.
pub fn timezone_hour<'a>(i: &'a str) -> (r: Matched<'a, (Option<i32>, Option<i32>)>)
    ensures
        agrees(r, timezone_hour_spec(i@)),
{
    let (r1, sg) = sign(i)?;
    let (r2, h) = hour(r1)?;
    let (r3, m) = timezone_minute(r2)?;
    Ok((r3, (Some(apply_sign(sg, h)), Some(m as i32))))
}

/// Recognizes the timezone designator `Z`.
pub fn timezone_utc<'a>(i: &'a str) -> (r: Matched<'a, (Option<i32>, Option<i32>)>)
    ensures
        agrees(r, timezone_utc_spec(i@)),
{
    let (rest, _) = literal(i, 'Z')?;
    Ok((rest, (Some(0), Some(0))))
}

/// Recognizes a time of day with its optional timezone.
pub fn parse_time<'a>(i: &'a str) -> (r: Matched<'a, Time>)
    ensures
        agrees(r, parse_time_spec(i@)),
{
    let (r1, hms) = hms(i)?;
    let zone = match timezone_hour(r1) {
        Ok(m) => Ok(m),
        Err(_) => timezone_utc(r1),
    };
    let (rest, tz) = match zone {
        Ok((r2, tz)) => (r2, tz),
        Err(_) => (r1, (None, None)),
    };
    Ok(
        (
            rest,
            Time {
                hours: hms.0,
                minutes: hms.1,
                seconds: hms.2,
                tz_offset_hours: tz.0,
                tz_offset_minutes: tz.1,
            },
        ),
    )
}

/// Recognizes the letter `T` and a time of day.
pub fn time_piece<'a>(i: &'a str) -> (r: Matched<'a, Time>)
    ensures
        agrees(r, time_piece_spec(i@)),
{
    let (r1, _) = literal(i, 'T')?;
    parse_time(r1)
}

/// Recognizes a date with an optional time of day.
pub fn datetime<'a>(i: &'a str) -> (r: Matched<'a, DateTime>)
    ensures
        agrees(r, datetime_spec(i@)),
{
    let (r1, d) = parse_date(i)?;
    match time_piece(r1) {
        Ok((r2, t)) => Ok((r2, DateTime { date: d, time: Some(t) })),
        Err(_) => Ok((r1, DateTime { date: d, time: None })),
    }
}

/// Recognizes a simple date.
pub fn simple_date<'a>(i: &'a str) -> (r: Matched<'a, GedcomxDate>)
    ensures
        agrees(r, simple_date_spec(i@)),
{
    let (r1, approximate) = match approximate(i) {
        Ok((r1, _)) => (r1, true),
        Err(_) => (i, false),
    };
    let (r2, dt) = datetime(r1)?;
    Ok((r2, GedcomxDate::Simple(Simple { date: dt.date, time: dt.time, approximate })))
}

} // verus!
