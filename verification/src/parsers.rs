//! The end of a range or recurrence, and the choice between the three kinds
//! of date.

use vstd::prelude::*;
use crate::duration::{duration, duration_spec};
use crate::range::{range, range_spec};
use crate::recurring::{recurring, recurring_spec};
use crate::scan::{agrees, or_else, Matched, Outcome};
use crate::simple::{datetime, datetime_spec, simple_date, simple_date_spec};
use crate::{DateTimeOrDuration, GedcomxDate};

verus! {

/// A date with optional time, as the end of a range or recurrence.
pub open spec fn parse_datetime_spec(s: Seq<char>) -> Outcome<DateTimeOrDuration> {
    match datetime_spec(s) {
        Some((rest, dt)) => Some((rest, DateTimeOrDuration::DateTime(dt))),
        None => None,
    }
}

/// A duration, as the end of a range or recurrence.
pub open spec fn parse_duration_spec(s: Seq<char>) -> Outcome<DateTimeOrDuration> {
    match duration_spec(s) {
        Some((rest, d)) => Some((rest, DateTimeOrDuration::Duration(d))),
        None => None,
    }
}

/// The end of a range or recurrence: a duration, else a date with optional
/// time.
pub open spec fn datetime_or_duration_spec(s: Seq<char>) -> Outcome<DateTimeOrDuration> {
    or_else(parse_duration_spec(s), parse_datetime_spec(s))
}

/// The first of recurring date, range and simple date that matches at the
/// start of the input.
pub open spec fn first_match_spec(s: Seq<char>) -> Outcome<GedcomxDate> {
    or_else(recurring_spec(s), or_else(range_spec(s), simple_date_spec(s)))
}

/// Recognizes a date with optional time as an end value.
pub fn parse_datetime<'a>(i: &'a str) -> (r: Matched<'a, DateTimeOrDuration>)
    ensures
        agrees(r, parse_datetime_spec(i@)),
{
    let (rest, dt) = datetime(i)?;
    Ok((rest, DateTimeOrDuration::DateTime(dt)))
}

/// Recognizes a duration as an end value.
pub fn parse_duration<'a>(i: &'a str) -> (r: Matched<'a, DateTimeOrDuration>)
    ensures
        agrees(r, parse_duration_spec(i@)),
{
    let (rest, d) = duration(i)?;
    Ok((rest, DateTimeOrDuration::Duration(d)))
}

/// Recognizes the end of a range or recurrence.
pub fn datetime_or_duration<'a>(i: &'a str) -> (r: Matched<'a, DateTimeOrDuration>)
    ensures
        agrees(r, datetime_or_duration_spec(i@)),
{
    match parse_duration(i) {
        Ok(m) => Ok(m),
        Err(_) => parse_datetime(i),
    }
}

/// Recognizes a recurring date, a range or a simple date at the start of
/// the input and returns it with the input that is left.
pub fn parse<'a>(i: &'a str) -> (r: Matched<'a, GedcomxDate>)
    ensures
        agrees(r, first_match_spec(i@)),
{
    match recurring(i) {
        Ok(m) => Ok(m),
        Err(_) => match range(i) {
            Ok(m) => Ok(m),
            Err(_) => simple_date(i),
        },
    }
}

} // verus!
