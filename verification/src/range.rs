//! Date ranges: closed, open at the start, or open at the end.

use vstd::prelude::*;
use crate::parsers::{
    datetime_or_duration, datetime_or_duration_spec, parse_datetime, parse_datetime_spec,
};
use crate::scan::{agrees, literal, literal_spec, or_else, Matched, Outcome};
use crate::simple::{approximate, approximate_spec, datetime, datetime_spec};
use crate::{DateTime, DateTimeOrDuration, GedcomxDate, Range};

verus! {

/// The closed form: a start, `/`, and an end that is a date or a duration.
pub open spec fn full_spec(s: Seq<char>) -> Outcome<(Option<DateTime>, Option<DateTimeOrDuration>)> {
    match datetime_spec(s) {
        Some((r1, start)) => match literal_spec(r1, '/') {
            Some((r2, _)) => match datetime_or_duration_spec(r2) {
                Some((r3, end)) => Some((r3, (Some(start), Some(end)))),
                None => None,
            },
            None => None,
        },
        None => None,
    }
}

/// The form without a start: `/` and an end, which is a date and never a
/// duration.
pub open spec fn trailing_spec(s: Seq<char>) -> Outcome<
    (Option<DateTime>, Option<DateTimeOrDuration>),
> {
    match literal_spec(s, '/') {
        Some((r1, _)) => match parse_datetime_spec(r1) {
            Some((r2, end)) => Some((r2, (None, Some(end)))),
            None => None,
        },
        None => None,
    }
}

/// The form without an end: a start and `/`.
pub open spec fn leading_spec(s: Seq<char>) -> Outcome<
    (Option<DateTime>, Option<DateTimeOrDuration>),
> {
    match datetime_spec(s) {
        Some((r1, start)) => match literal_spec(r1, '/') {
            Some((r2, _)) => Some((r2, (Some(start), None))),
            None => None,
        },
        None => None,
    }
}

/// The two sides of a range: the first of the closed form, the form without
/// a start and the form without an end that matches.
pub open spec fn dates_spec(s: Seq<char>) -> Outcome<
    (Option<DateTime>, Option<DateTimeOrDuration>),
> {
    or_else(full_spec(s), or_else(trailing_spec(s), leading_spec(s)))
}

/// A range: an optional approximate marker, which belongs to the range as a
/// whole, and the two sides.
pub open spec fn range_spec(s: Seq<char>) -> Outcome<GedcomxDate> {
    let (r1, approximate) = match approximate_spec(s) {
        Some((r1, _)) => (r1, true),
        None => (s, false),
    };
    match dates_spec(r1) {
        Some((r2, sides)) => Some(
            (r2, GedcomxDate::Range(Range { start: sides.0, end: sides.1, approximate })),
        ),
        None => None,
    }
}

/// Recognizes a closed range.
pub fn full<'a>(i: &'a str) -> (r: Matched<'a, (Option<DateTime>, Option<DateTimeOrDuration>)>)
    ensures
        agrees(r, full_spec(i@)),
{
    let (r1, start) = datetime(i)?;
    let (r2, _) = literal(r1, '/')?;
    let (r3, end) = datetime_or_duration(r2)?;
    Ok((r3, (Some(start), Some(end))))
}

/// Recognizes a range without a start.
pub fn trailing<'a>(i: &'a str) -> (r: Matched<
    'a,
    (Option<DateTime>, Option<DateTimeOrDuration>),
>)
    ensures
        agrees(r, trailing_spec(i@)),
{
    let (r1, _) = literal(i, '/')?;
    let (r2, end) = parse_datetime(r1)?;
    Ok((r2, (None, Some(end))))
}

/// Recognizes a range without an end.
pub fn leading<'a>(i: &'a str) -> (r: Matched<'a, (Option<DateTime>, Option<DateTimeOrDuration>)>)
    ensures
        agrees(r, leading_spec(i@)),
{
    let (r1, start) = datetime(i)?;
    let (r2, _) = literal(r1, '/')?;
    Ok((r2, (Some(start), None)))
}

/// Recognizes the two sides of a range.
pub fn dates<'a>(i: &'a str) -> (r: Matched<'a, (Option<DateTime>, Option<DateTimeOrDuration>)>)
    ensures
        agrees(r, dates_spec(i@)),
{
    match full(i) {
        Ok(m) => Ok(m),
        Err(_) => match trailing(i) {
            Ok(m) => Ok(m),
            Err(_) => leading(i),
        },
    }
}

/// Recognizes a range.
pub fn range<'a>(i: &'a str) -> (r: Matched<'a, GedcomxDate>)
    ensures
        agrees(r, range_spec(i@)),
{
    let (r1, approximate) = match approximate(i) {
        Ok((r1, _)) => (r1, true),
        Err(_) => (i, false),
    };
    let (r2, sides) = dates(r1)?;
    Ok((r2, GedcomxDate::Range(Range { start: sides.0, end: sides.1, approximate })))
}

} // verus!
