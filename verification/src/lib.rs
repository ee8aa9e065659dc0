//! Parser and canonical serializer for the GEDCOM X date format: single
//! dates, date ranges and recurring dates, with optional time of day,
//! timezone offset and approximate marker.
//!
//! Every grammar rule is a pair: a specification function on `Seq<char>` that
//! says what the rule matches, and an executable recognizer on `&str` that is
//! proved to agree with it.

use vstd::prelude::*;
use crate::laws::{lemma_dispatch, lemma_parse_well_formed};
use crate::range::range_spec;
use crate::recurring::recurring_spec;
use crate::scan::Outcome;
use crate::simple::simple_date_spec;

pub mod duration;
pub mod laws;
pub mod parsers;
pub mod range;
pub mod recurring;
pub mod render;
pub mod roundtrip;
pub mod scan;
pub mod simple;

verus! {

/// A calendar date: a signed year with optional month and day.
#[derive(Eq, PartialEq, Debug, Copy, Clone)]
pub struct Date {
    pub year: i32,
    pub month: Option<u32>,
    pub day: Option<u32>,
}

/// A time of day with an optional timezone offset.
#[derive(Eq, PartialEq, Debug, Copy, Clone)]
pub struct Time {
    pub hours: u32,
    pub minutes: Option<u32>,
    pub seconds: Option<u32>,
    pub tz_offset_hours: Option<i32>,
    pub tz_offset_minutes: Option<i32>,
}

/// A single point in time that may be marked approximate.
#[derive(Eq, PartialEq, Debug, Copy, Clone)]
pub struct Simple {
    pub date: Date,
    pub time: Option<Time>,
    pub approximate: bool,
}

/// A date with an optional time; the endpoints of ranges and recurrences.
#[derive(Eq, PartialEq, Debug, Copy, Clone)]
pub struct DateTime {
    pub date: Date,
    pub time: Option<Time>,
}

/// A length of time, component by component.
#[derive(Eq, PartialEq, Debug, Copy, Clone)]
pub struct Duration {
    pub years: u32,
    pub months: u32,
    pub days: u32,
    pub hours: u32,
    pub minutes: u32,
    pub seconds: u32,
}

/// The end of a range or recurrence: an absolute date or a duration.
#[derive(Eq, PartialEq, Debug, Copy, Clone)]
pub enum DateTimeOrDuration {
    DateTime(DateTime),
    Duration(Duration),
}

/// A date range, open at either side but not at both.
#[derive(Eq, PartialEq, Debug, Copy, Clone)]
pub struct Range {
    pub start: Option<DateTime>,
    pub end: Option<DateTimeOrDuration>,
    pub approximate: bool,
}

/// A recurring interval with an optional repeat count.
#[derive(Eq, PartialEq, Debug, Copy, Clone)]
pub struct Recurring {
    pub start: DateTime,
    pub end: DateTimeOrDuration,
    pub count: Option<u32>,
}

/// The three kinds of GEDCOM X date.
#[derive(Eq, PartialEq, Debug, Copy, Clone)]
pub enum GedcomxDate {
    Simple(Simple),
    Range(Range),
    Recurring(Recurring),
}

impl Date {
    /// The month lies in 1..=12, the day in 1..=31, and a day comes only
    /// with a month.
    pub open spec fn well_formed(&self) -> bool {
        &&& self.month matches Some(m) ==> 1 <= m <= 12
        &&& self.day matches Some(d) ==> 1 <= d <= 31
        &&& self.day is Some ==> self.month is Some
    }

    /// The year can be written with a sign and exactly four digits.
    pub open spec fn has_four_digit_year(&self) -> bool {
        -9999 <= self.year <= 9999
    }
}

impl Time {
    /// Every field lies in its range, seconds come only with minutes, and
    /// the two offset fields come together. Only the offset hours are
    /// signed: the offset minutes lie in 0..=59.
    pub open spec fn well_formed(&self) -> bool {
        &&& self.hours <= 24
        &&& self.minutes matches Some(m) ==> m <= 59
        &&& self.seconds matches Some(s) ==> s <= 60
        &&& self.seconds is Some ==> self.minutes is Some
        &&& self.tz_offset_hours is Some <==> self.tz_offset_minutes is Some
        &&& self.tz_offset_hours matches Some(h) ==> -24 <= h <= 24
        &&& self.tz_offset_minutes matches Some(m) ==> 0 <= m <= 59
    }
}

impl DateTime {
    /// The date is well formed, and so is the time where there is one.
    pub open spec fn well_formed(&self) -> bool {
        &&& self.date.well_formed()
        &&& self.time matches Some(t) ==> t.well_formed()
    }

    /// The year of the date can be written with four digits.
    pub open spec fn has_four_digit_year(&self) -> bool {
        self.date.has_four_digit_year()
    }
}

impl DateTimeOrDuration {
    /// A date with optional time is well formed as such; every duration is
    /// well formed.
    pub open spec fn well_formed(&self) -> bool {
        match *self {
            DateTimeOrDuration::DateTime(dt) => dt.well_formed(),
            DateTimeOrDuration::Duration(_) => true,
        }
    }

    /// The year of a date can be written with four digits; a duration has no
    /// year to ask of.
    pub open spec fn has_four_digit_year(&self) -> bool {
        match *self {
            DateTimeOrDuration::DateTime(dt) => dt.has_four_digit_year(),
            DateTimeOrDuration::Duration(_) => true,
        }
    }
}

impl Simple {
    /// The same point in time without the approximate flag.
    pub open spec fn datetime(&self) -> DateTime {
        DateTime { date: self.date, time: self.time }
    }

    /// The date is well formed, and so is the time where there is one.
    pub open spec fn well_formed(&self) -> bool {
        self.datetime().well_formed()
    }

    /// The year of the date can be written with four digits.
    pub open spec fn has_four_digit_year(&self) -> bool {
        self.date.has_four_digit_year()
    }
}

impl Range {
    /// At least one side is present, a range without a start ends in a date,
    /// and the sides are well formed.
    pub open spec fn well_formed(&self) -> bool {
        &&& self.start is Some || self.end is Some
        &&& self.start is None ==> self.end is Some && self.end->0 is DateTime
        &&& self.start matches Some(s) ==> s.well_formed()
        &&& self.end matches Some(e) ==> e.well_formed()
    }

    /// The years of the sides that are present can be written with four
    /// digits.
    pub open spec fn has_four_digit_year(&self) -> bool {
        &&& self.start matches Some(s) ==> s.has_four_digit_year()
        &&& self.end matches Some(e) ==> e.has_four_digit_year()
    }
}

impl Recurring {
    /// Start and end are well formed.
    pub open spec fn well_formed(&self) -> bool {
        self.start.well_formed() && self.end.well_formed()
    }

    /// The years of start and end can be written with four digits.
    pub open spec fn has_four_digit_year(&self) -> bool {
        self.start.has_four_digit_year() && self.end.has_four_digit_year()
    }
}

impl GedcomxDate {
    /// The invariant of the kind of date that this is.
    pub open spec fn well_formed(&self) -> bool {
        match *self {
            GedcomxDate::Simple(s) => s.well_formed(),
            GedcomxDate::Range(r) => r.well_formed(),
            GedcomxDate::Recurring(r) => r.well_formed(),
        }
    }

    /// Every year in this date can be written with four digits.
    pub open spec fn has_four_digit_year(&self) -> bool {
        match *self {
            GedcomxDate::Simple(s) => s.has_four_digit_year(),
            GedcomxDate::Range(r) => r.has_four_digit_year(),
            GedcomxDate::Recurring(r) => r.has_four_digit_year(),
        }
    }

    /// The simple date, if this is one.
    pub fn get_simple_date(&self) -> (r: Option<Simple>)
        ensures
            r == (match *self {
                GedcomxDate::Simple(date) => Some(date),
                _ => None,
            }),
    {
        match *self {
            GedcomxDate::Simple(date) => Some(date),
            _ => None,
        }
    }

    /// The range, if this is one.
    pub fn get_range(&self) -> (r: Option<Range>)
        ensures
            r == (match *self {
                GedcomxDate::Range(date) => Some(date),
                _ => None,
            }),
    {
        match *self {
            GedcomxDate::Range(date) => Some(date),
            _ => None,
        }
    }

    /// The recurring date, if this is one.
    pub fn get_recurring(&self) -> (r: Option<Recurring>)
        ensures
            r == (match *self {
                GedcomxDate::Recurring(date) => Some(date),
                _ => None,
            }),
    {
        match *self {
            GedcomxDate::Recurring(date) => Some(date),
            _ => None,
        }
    }
}

/// The value of a match that left no input behind, or nothing.
pub open spec fn complete<T>(m: Outcome<T>) -> Option<T> {
    match m {
        Some((rest, v)) => if rest.len() == 0 {
            Some(v)
        } else {
            None
        },
        None => None,
    }
}

/// What a text denotes: the first of recurring date, range and simple date
/// whose grammar matches the text from its first to its last character.
pub open spec fn parse_spec(s: Seq<char>) -> Option<GedcomxDate> {
    if complete(recurring_spec(s)) is Some {
        complete(recurring_spec(s))
    } else if complete(range_spec(s)) is Some {
        complete(range_spec(s))
    } else {
        complete(simple_date_spec(s))
    }
}

/// Parses a GEDCOM X date. Success is all or nothing: the text as a whole
/// is a recurring date, a range or a simple date, or the call fails with
/// the one message `Parsing error`. The date that comes back keeps the
/// invariants of the data model.
pub fn parse(string: &str) -> (r: Result<GedcomxDate, String>)
    ensures
        match r {
            Ok(date) => {
                &&& parse_spec(string@) == Some(date)
                &&& date.well_formed()
                &&& date.has_four_digit_year()
            },
            Err(message) => parse_spec(string@) is None && message@ == "Parsing error"@,
        },
{
    proof {
        lemma_dispatch(string@);
        lemma_parse_well_formed(string@);
    }
    match crate::parsers::parse(string) {
        Ok((remaining, parsed)) => {
            if remaining.is_empty() {
                Ok(parsed)
            } else {
                Err("Parsing error".to_owned())
            }
        },
        Err(_) => Err("Parsing error".to_owned()),
    }
}

} // verus!
