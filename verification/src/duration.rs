//! Durations: `P`, then years, months and days, then an optional time
//! section `T` with hours, minutes and seconds. Each component is a number
//! of any length followed by its designator letter.

use vstd::prelude::*;
use crate::scan::{agrees, literal, literal_spec, u32_digit, u32_digit_spec, Matched, Outcome};
use crate::Duration;

verus! {

/// One optional component: a number and the designator `letter`. Where the
/// input does not start with such a pair, nothing is consumed and the
/// component counts as zero.
pub open spec fn component_spec(s: Seq<char>, letter: char) -> (Seq<char>, u32) {
    match u32_digit_spec(s) {
        Some((r1, v)) => match literal_spec(r1, letter) {
            Some((r2, _)) => (r2, v),
            None => (s, 0u32),
        },
        None => (s, 0u32),
    }
}

/// The time section of a duration: `T`, then optional hours, minutes and
/// seconds in this order.
pub open spec fn duration_time_spec(s: Seq<char>) -> Outcome<(u32, u32, u32)> {
    match literal_spec(s, 'T') {
        Some((r1, _)) => {
            let (r2, h) = component_spec(r1, 'H');
            let (r3, m) = component_spec(r2, 'M');
            let (r4, sec) = component_spec(r3, 'S');
            Some((r4, (h, m, sec)))
        },
        None => None,
    }
}

/// A duration: `P`, then optional years, months and days in this order,
/// then an optional time section. A bare `P` is the duration zero.
pub open spec fn duration_spec(s: Seq<char>) -> Outcome<Duration> {
    match literal_spec(s, 'P') {
        Some((r1, _)) => {
            let (r2, y) = component_spec(r1, 'Y');
            let (r3, m) = component_spec(r2, 'M');
            let (r4, d) = component_spec(r3, 'D');
            let (r5, t) = match duration_time_spec(r4) {
                Some((r5, t)) => (r5, t),
                None => (r4, (0u32, 0u32, 0u32)),
            };
            Some(
                (
                    r5,
                    Duration {
                        years: y,
                        months: m,
                        days: d,
                        hours: t.0,
                        minutes: t.1,
                        seconds: t.2,
                    },
                ),
            )
        },
        None => None,
    }
}

/// Recognizes one optional component of a duration. Returns the rest of the
/// input and the component's value, zero where it is absent.
pub fn component<'a>(i: &'a str, letter: char) -> (r: (&'a str, u32))
    ensures
        (r.0@, r.1) == component_spec(i@, letter),
{
    match u32_digit(i) {
        Ok((r1, v)) => match literal(r1, letter) {
            Ok((r2, _)) => (r2, v),
            Err(_) => (i, 0),
        },
        Err(_) => (i, 0),
    }
}

/// Recognizes the time section of a duration.
pub fn duration_time<'a>(i: &'a str) -> (r: Matched<'a, (u32, u32, u32)>)
    ensures
        agrees(r, duration_time_spec(i@)),
{
    let (r1, _) = literal(i, 'T')?;
    let (r2, h) = component(r1, 'H');
    let (r3, m) = component(r2, 'M');
    let (r4, sec) = component(r3, 'S');
    Ok((r4, (h, m, sec)))
}

/// Recognizes a duration.
pub fn duration<'a>(i: &'a str) -> (r: Matched<'a, Duration>)
    ensures
        agrees(r, duration_spec(i@)),
{
    let (r1, _) = literal(i, 'P')?;
    let (r2, y) = component(r1, 'Y');
    let (r3, m) = component(r2, 'M');
    let (r4, d) = component(r3, 'D');
    let (r5, t) = match duration_time(r4) {
        Ok((r5, t)) => (r5, t),
        Err(_) => (r4, (0, 0, 0)),
    };
    Ok(
        (
            r5,
            Duration { years: y, months: m, days: d, hours: t.0, minutes: t.1, seconds: t.2 },
        ),
    )
}

} // verus!
