//! Recurring dates: `R`, an optional repeat count, and a closed interval.

use vstd::prelude::*;
use crate::parsers::{datetime_or_duration, datetime_or_duration_spec};
use crate::scan::{agrees, literal, literal_spec, u32_digit, u32_digit_spec, Matched, Outcome};
use crate::simple::{datetime, datetime_spec};
use crate::{DateTime, DateTimeOrDuration, GedcomxDate, Recurring};

verus! {

/// The interval of a recurrence: a start, `/`, and an end. Both are
/// mandatory.
pub open spec fn dates_spec(s: Seq<char>) -> Outcome<(DateTime, DateTimeOrDuration)> {
    match datetime_spec(s) {
        Some((r1, start)) => match literal_spec(r1, '/') {
            Some((r2, _)) => match datetime_or_duration_spec(r2) {
                Some((r3, end)) => Some((r3, (start, end))),
                None => None,
            },
            None => None,
        },
        None => None,
    }
}

/// A recurring date: `R`, an optional repeat count, `/`, and the interval.
/// There is no place for an approximate marker.
pub open spec fn recurring_spec(s: Seq<char>) -> Outcome<GedcomxDate> {
    match literal_spec(s, 'R') {
        Some((r1, _)) => {
            let (r2, count) = match u32_digit_spec(r1) {
                Some((r2, c)) => (r2, Some(c)),
                None => (r1, None),
            };
            match literal_spec(r2, '/') {
                Some((r3, _)) => match dates_spec(r3) {
                    Some((r4, sides)) => Some(
                        (
                            r4,
                            GedcomxDate::Recurring(
                                Recurring { start: sides.0, end: sides.1, count },
                            ),
                        ),
                    ),
                    None => None,
                },
                None => None,
            }
        },
        None => None,
    }
}

/// Recognizes the interval of a recurrence.
pub fn dates<'a>(i: &'a str) -> (r: Matched<'a, (DateTime, DateTimeOrDuration)>)
    ensures
        agrees(r, dates_spec(i@)),
{
    let (r1, start) = datetime(i)?;
    let (r2, _) = literal(r1, '/')?;
    let (r3, end) = datetime_or_duration(r2)?;
    Ok((r3, (start, end)))
}

/// Recognizes a recurring date.
pub fn recurring<'a>(i: &'a str) -> (r: Matched<'a, GedcomxDate>)
    ensures
        agrees(r, recurring_spec(i@)),
{
    let (r1, _) = literal(i, 'R')?;
    let (r2, count) = match u32_digit(r1) {
        Ok((r2, c)) => (r2, Some(c)),
        Err(_) => (r1, None),
    };
    let (r3, _) = literal(r2, '/')?;
    let (r4, sides) = dates(r3)?;
    Ok((r4, GedcomxDate::Recurring(Recurring { start: sides.0, end: sides.1, count })))
}

} // verus!
