//! What holds of every text: the values that the grammar yields keep the
//! invariants of the data model, the three kinds of date never compete for
//! one text, and a rule leaves a rest of its input.

use vstd::prelude::*;
use crate::duration::{component_spec, duration_spec};
use crate::parsers::{datetime_or_duration_spec, first_match_spec};
use crate::range::{dates_spec, full_spec, leading_spec, range_spec};
use crate::recurring::recurring_spec;
use crate::scan::{
    bounded_pair_spec, digit_run, is_digit, literal_spec, u32_digit_spec, Outcome,
};
use crate::simple::{
    approximate_spec, datetime_spec, hhmm_spec, hms_spec, optional_timezone_spec, parse_time_spec,
    sign_spec, simple_date_spec, timezone_minute_spec, year_prefix_spec, year_spec, ymd_spec,
    yyyymm_spec,
};
use crate::{complete, parse_spec};

verus! {

/// A two-digit field yields a number within its bounds.
pub proof fn lemma_bounded_pair_range(s: Seq<char>, lo: int, hi: int)
    requires
        0 <= lo,
        hi < 100,
    ensures
        bounded_pair_spec(s, lo, hi) matches Some((_, v)) ==> lo <= v <= hi,
{
}

/// A year that the grammar yields has at most four digits.
pub proof fn lemma_year_range(s: Seq<char>)
    ensures
        year_spec(s) matches Some((_, y)) ==> -9999 <= y <= 9999,
{
}

/// A date that the grammar yields is well formed and has a four-digit year.
pub proof fn lemma_date_well_formed(s: Seq<char>)
    ensures
        ymd_spec(s) matches Some((_, d)) ==> d.well_formed() && d.has_four_digit_year(),
{
    lemma_year_range(s);
}

/// A timezone that the grammar yields has both offset fields or none: hours
/// from -24 to 24 and minutes from 0 to 59.
pub proof fn lemma_timezone_well_formed(s: Seq<char>)
    ensures
        ({
            let tz = optional_timezone_spec(s).1;
            &&& tz.0 is Some <==> tz.1 is Some
            &&& tz.0 matches Some(h) ==> -24 <= h <= 24
            &&& tz.1 matches Some(m) ==> 0 <= m <= 59
        }),
{
}

/// A time that the grammar yields is well formed.
pub proof fn lemma_time_well_formed(s: Seq<char>)
    ensures
        parse_time_spec(s) matches Some((_, t)) ==> t.well_formed(),
{
    match hms_spec(s) {
        Some((r1, _)) => {
            lemma_timezone_well_formed(r1);
        },
        None => {},
    }
}

/// A date with optional time that the grammar yields is well formed and has
/// a four-digit year.
pub proof fn lemma_datetime_well_formed(s: Seq<char>)
    ensures
        datetime_spec(s) matches Some((_, dt)) ==> dt.well_formed() && dt.has_four_digit_year(),
{
    lemma_date_well_formed(s);
    match ymd_spec(s) {
        Some((r1, _)) => {
            match literal_spec(r1, 'T') {
                Some((r2, _)) => {
                    lemma_time_well_formed(r2);
                },
                None => {},
            }
        },
        None => {},
    }
}

/// An end value that the grammar yields is well formed and has a four-digit
/// year.
pub proof fn lemma_end_well_formed(s: Seq<char>)
    ensures
        datetime_or_duration_spec(s) matches Some((_, e)) ==> e.well_formed()
            && e.has_four_digit_year(),
{
    lemma_datetime_well_formed(s);
}

/// The two sides of a range that the grammar yields are not both absent, a
/// missing start comes with a date as the end, and both are well formed.
pub proof fn lemma_range_well_formed(s: Seq<char>)
    ensures
        range_spec(s) matches Some((_, v)) ==> v.well_formed() && v.has_four_digit_year(),
{
    let body = match approximate_spec(s) {
        Some((r1, _)) => r1,
        None => s,
    };
    lemma_datetime_well_formed(body);
    match datetime_spec(body) {
        Some((r1, _)) => {
            match literal_spec(r1, '/') {
                Some((r2, _)) => {
                    lemma_end_well_formed(r2);
                },
                None => {},
            }
        },
        None => {},
    }
    match literal_spec(body, '/') {
        Some((r1, _)) => {
            lemma_datetime_well_formed(r1);
        },
        None => {},
    }
}

/// A recurring date that the grammar yields is well formed and has
/// four-digit years.
pub proof fn lemma_recurring_well_formed(s: Seq<char>)
    ensures
        recurring_spec(s) matches Some((_, v)) ==> v.well_formed() && v.has_four_digit_year(),
{
    if let Some((r1, _)) = literal_spec(s, 'R') {
        let r2 = match u32_digit_spec(r1) {
            Some((r2, _)) => r2,
            None => r1,
        };
        if let Some((r3, _)) = literal_spec(r2, '/') {
            lemma_datetime_well_formed(r3);
            if let Some((r4, _)) = datetime_spec(r3) {
                if let Some((r5, _)) = literal_spec(r4, '/') {
                    lemma_end_well_formed(r5);
                }
            }
        }
    }
}

/// A simple date that the grammar yields is well formed and has a
/// four-digit year.
pub proof fn lemma_simple_well_formed(s: Seq<char>)
    ensures
        simple_date_spec(s) matches Some((_, v)) ==> v.well_formed() && v.has_four_digit_year(),
{
    let body = match approximate_spec(s) {
        Some((r1, _)) => r1,
        None => s,
    };
    lemma_datetime_well_formed(body);
}

/// Whatever a text denotes keeps the invariants of the data model: every
/// field lies in its range, a day comes with a month and seconds with
/// minutes, a range has at least one side, and years have four digits.
pub proof fn lemma_parse_well_formed(s: Seq<char>)
    ensures
        parse_spec(s) matches Some(v) ==> v.well_formed() && v.has_four_digit_year(),
{
    lemma_recurring_well_formed(s);
    lemma_range_well_formed(s);
    lemma_simple_well_formed(s);
}

/// A recurring date starts with `R`, a range and a simple date never do.
pub proof fn lemma_recurring_excludes(s: Seq<char>)
    requires
        recurring_spec(s) is Some,
    ensures
        range_spec(s) is None,
        simple_date_spec(s) is None,
{
    assert(s[0] == 'R');
    assert(approximate_spec(s) is None);
    assert(year_prefix_spec(s) is None);
    assert(datetime_spec(s) is None);
    assert(literal_spec(s, '/') is None);
}

/// Where a range matches at the start of a text, a simple date does not
/// match the whole of it: behind the date that both begin with stands `/`.
pub proof fn lemma_range_excludes(s: Seq<char>)
    requires
        range_spec(s) is Some,
    ensures
        complete(simple_date_spec(s)) is None,
{
    let body = match approximate_spec(s) {
        Some((r1, _)) => r1,
        None => s,
    };
    assert(dates_spec(body) is Some);
    match datetime_spec(body) {
        Some((r1, _)) => {
            assert(literal_spec(r1, '/') is Some);
        },
        None => {},
    }
}

/// The three kinds of date do not collide: taking the first kind that
/// matches at the start of a text and then asking that nothing be left
/// gives the same as taking the first kind that matches the whole text.
pub proof fn lemma_dispatch(s: Seq<char>)
    ensures
        complete(first_match_spec(s)) == parse_spec(s),
{
    if recurring_spec(s) is Some {
        lemma_recurring_excludes(s);
    } else if range_spec(s) is Some {
        lemma_range_excludes(s);
    }
}

/// `rest` is what is left of `s` behind some of its first characters.
pub open spec fn is_rest_of(rest: Seq<char>, s: Seq<char>) -> bool {
    rest.len() <= s.len() && rest == s.skip(s.len() - rest.len())
}

/// Where the rule matched, what it left is a rest of `s`.
pub open spec fn leaves_rest<T>(m: Outcome<T>, s: Seq<char>) -> bool {
    m matches Some((rest, _)) ==> is_rest_of(rest, s)
}

/// A rest of a rest is a rest.
pub proof fn lemma_rest_of_rest(a: Seq<char>, b: Seq<char>, c: Seq<char>)
    requires
        is_rest_of(a, b),
        is_rest_of(b, c),
    ensures
        is_rest_of(a, c),
{
    assert(a =~= c.skip(c.len() - a.len()));
}

/// What is left behind the first `k` characters is a rest.
pub proof fn lemma_skip_is_rest(s: Seq<char>, k: int)
    requires
        0 <= k <= s.len(),
    ensures
        is_rest_of(s.skip(k), s),
{
}

/// A year leaves a rest of its input.
pub proof fn lemma_year_rest(s: Seq<char>)
    ensures
        leaves_rest(year_spec(s), s),
{
    if let Some((r1, _)) = year_prefix_spec(s) {
        lemma_skip_is_rest(s, 1);
        if r1.len() >= 4 {
            lemma_skip_is_rest(r1, 4);
            lemma_rest_of_rest(r1.skip(4), r1, s);
        }
    }
}

/// A sign or colon and a two-digit field leave a rest of their input.
proof fn lemma_mark_and_pair_rest(s: Seq<char>, c: char, lo: int, hi: int)
    ensures
        literal_spec(s, c) matches Some((r1, _)) ==> leaves_rest(bounded_pair_spec(r1, lo, hi), s),
{
    if let Some((r1, _)) = literal_spec(s, c) {
        lemma_skip_is_rest(s, 1);
        if r1.len() >= 2 {
            lemma_skip_is_rest(r1, 2);
            lemma_rest_of_rest(r1.skip(2), r1, s);
        }
    }
}

/// A date leaves a rest of its input.
pub proof fn lemma_date_rest(s: Seq<char>)
    ensures
        leaves_rest(ymd_spec(s), s),
{
    lemma_year_rest(s);
    if let Some((r1, _)) = year_spec(s) {
        lemma_mark_and_pair_rest(r1, '-', 1, 12);
        if let Some((r3, _)) = yyyymm_spec(s) {
            lemma_rest_of_rest(r3, r1, s);
            lemma_mark_and_pair_rest(r3, '-', 1, 31);
            if let Some((r4, _)) = literal_spec(r3, '-') {
                if let Some((r5, _)) = bounded_pair_spec(r4, 1, 31) {
                    lemma_rest_of_rest(r5, r3, s);
                }
            }
        }
    }
}

/// Hours, minutes and seconds leave a rest of their input.
pub proof fn lemma_hms_rest(s: Seq<char>)
    ensures
        leaves_rest(hms_spec(s), s),
{
    if let Some((r1, _)) = bounded_pair_spec(s, 0, 24) {
        lemma_skip_is_rest(s, 2);
        lemma_mark_and_pair_rest(r1, ':', 0, 59);
        if let Some((r3, _)) = hhmm_spec(s) {
            lemma_rest_of_rest(r3, r1, s);
            lemma_mark_and_pair_rest(r3, ':', 0, 60);
            if let Some((r4, _)) = literal_spec(r3, ':') {
                if let Some((r5, _)) = bounded_pair_spec(r4, 0, 60) {
                    lemma_rest_of_rest(r5, r3, s);
                }
            }
        }
    }
}

/// The minutes of a timezone offset leave a rest of their input.
pub proof fn lemma_timezone_minute_rest(s: Seq<char>)
    ensures
        leaves_rest(timezone_minute_spec(s), s),
{
    lemma_skip_is_rest(s, 0);
    assert(s.skip(0) =~= s);
    lemma_mark_and_pair_rest(s, ':', 0, 59);
    if s.len() >= 2 {
        lemma_skip_is_rest(s, 2);
    }
}

/// An optional timezone leaves a rest of its input.
pub proof fn lemma_timezone_rest(s: Seq<char>)
    ensures
        is_rest_of(optional_timezone_spec(s).0, s),
{
    lemma_skip_is_rest(s, 0);
    assert(s.skip(0) =~= s);
    if s.len() >= 1 {
        lemma_skip_is_rest(s, 1);
    }
    if let Some((r1, _)) = sign_spec(s) {
        if let Some((r2, _)) = bounded_pair_spec(r1, 0, 24) {
            lemma_skip_is_rest(r1, 2);
            lemma_rest_of_rest(r2, r1, s);
            lemma_timezone_minute_rest(r2);
            if let Some((r3, _)) = timezone_minute_spec(r2) {
                lemma_rest_of_rest(r3, r2, s);
            }
        }
    }
}

/// A time of day leaves a rest of its input.
pub proof fn lemma_time_rest(s: Seq<char>)
    ensures
        leaves_rest(parse_time_spec(s), s),
{
    lemma_hms_rest(s);
    if let Some((r1, _)) = hms_spec(s) {
        lemma_timezone_rest(r1);
        lemma_rest_of_rest(optional_timezone_spec(r1).0, r1, s);
    }
}

/// A date with optional time leaves a rest of its input, and not all of
/// it.
pub proof fn lemma_datetime_rest(s: Seq<char>)
    ensures
        leaves_rest(datetime_spec(s), s),
        datetime_spec(s) matches Some((rest, _)) ==> rest.len() < s.len(),
{
    lemma_date_rest(s);
    if let Some((r1, _)) = ymd_spec(s) {
        lemma_year_rest(s);
        if let Some((r2, _)) = literal_spec(r1, 'T') {
            lemma_skip_is_rest(r1, 1);
            lemma_time_rest(r2);
            if let Some((r3, _)) = parse_time_spec(r2) {
                lemma_rest_of_rest(r3, r2, r1);
                lemma_rest_of_rest(r3, r1, s);
            }
        }
    }
}

/// A number leaves a rest of its input.
pub proof fn lemma_u32_digit_rest(s: Seq<char>)
    ensures
        leaves_rest(u32_digit_spec(s), s),
{
    lemma_digit_run_bound(s);
    lemma_skip_is_rest(s, digit_run(s) as int);
}

/// A digit run is no longer than the text it stands in.
pub proof fn lemma_digit_run_bound(s: Seq<char>)
    ensures
        digit_run(s) <= s.len(),
    decreases s.len(),
{
    if s.len() > 0 && is_digit(s[0]) {
        lemma_digit_run_bound(s.skip(1));
    }
}

/// A component of a duration leaves a rest of its input.
pub proof fn lemma_component_rest(s: Seq<char>, letter: char)
    ensures
        is_rest_of(component_spec(s, letter).0, s),
{
    lemma_skip_is_rest(s, 0);
    assert(s.skip(0) =~= s);
    lemma_u32_digit_rest(s);
    if let Some((r1, _)) = u32_digit_spec(s) {
        if let Some((r2, _)) = literal_spec(r1, letter) {
            lemma_skip_is_rest(r1, 1);
            lemma_rest_of_rest(r2, r1, s);
        }
    }
}

/// Three components of a duration in a row leave a rest of their input.
proof fn lemma_three_components_rest(s: Seq<char>, a: char, b: char, c: char)
    ensures
        is_rest_of(component_spec(component_spec(component_spec(s, a).0, b).0, c).0, s),
{
    let r1 = component_spec(s, a).0;
    let r2 = component_spec(r1, b).0;
    let r3 = component_spec(r2, c).0;
    lemma_component_rest(s, a);
    lemma_component_rest(r1, b);
    lemma_component_rest(r2, c);
    lemma_rest_of_rest(r2, r1, s);
    lemma_rest_of_rest(r3, r2, s);
}

/// A duration leaves a rest of its input.
pub proof fn lemma_duration_rest(s: Seq<char>)
    ensures
        leaves_rest(duration_spec(s), s),
{
    if let Some((r1, _)) = literal_spec(s, 'P') {
        lemma_skip_is_rest(s, 1);
        lemma_three_components_rest(r1, 'Y', 'M', 'D');
        let r4 = component_spec(component_spec(component_spec(r1, 'Y').0, 'M').0, 'D').0;
        lemma_rest_of_rest(r4, r1, s);
        if let Some((t1, _)) = literal_spec(r4, 'T') {
            lemma_skip_is_rest(r4, 1);
            lemma_three_components_rest(t1, 'H', 'M', 'S');
            let t4 = component_spec(component_spec(component_spec(t1, 'H').0, 'M').0, 'S').0;
            lemma_rest_of_rest(t4, t1, r4);
            lemma_rest_of_rest(t4, r4, s);
        }
    }
}

/// An end value leaves a rest of its input.
pub proof fn lemma_end_rest(s: Seq<char>)
    ensures
        leaves_rest(datetime_or_duration_spec(s), s),
{
    lemma_duration_rest(s);
    lemma_datetime_rest(s);
}

/// A start, `/` and an end leave a rest of their input.
proof fn lemma_interval_rest(s: Seq<char>)
    ensures
        leaves_rest(crate::recurring::dates_spec(s), s),
        leaves_rest(full_spec(s), s),
        leaves_rest(leading_spec(s), s),
{
    lemma_datetime_rest(s);
    if let Some((r1, _)) = datetime_spec(s) {
        if let Some((r2, _)) = literal_spec(r1, '/') {
            lemma_skip_is_rest(r1, 1);
            lemma_rest_of_rest(r2, r1, s);
            lemma_end_rest(r2);
            if let Some((r3, _)) = datetime_or_duration_spec(r2) {
                lemma_rest_of_rest(r3, r2, s);
            }
        }
    }
}

/// The two sides of a range leave a rest of their input.
proof fn lemma_sides_rest(s: Seq<char>)
    ensures
        leaves_rest(dates_spec(s), s),
{
    lemma_interval_rest(s);
    if let Some((r1, _)) = literal_spec(s, '/') {
        lemma_skip_is_rest(s, 1);
        lemma_datetime_rest(r1);
        if let Some((r2, _)) = datetime_spec(r1) {
            lemma_rest_of_rest(r2, r1, s);
        }
    }
}

/// Every kind of date leaves a rest of its input: a rule consumes
/// characters from the front and nothing else.
pub proof fn lemma_first_match_rest(s: Seq<char>)
    ensures
        leaves_rest(recurring_spec(s), s),
        leaves_rest(range_spec(s), s),
        leaves_rest(simple_date_spec(s), s),
        leaves_rest(first_match_spec(s), s),
{
    lemma_skip_is_rest(s, 0);
    assert(s.skip(0) =~= s);
    let body = match approximate_spec(s) {
        Some((r1, _)) => r1,
        None => s,
    };
    if s.len() > 0 {
        lemma_skip_is_rest(s, 1);
    }
    lemma_sides_rest(body);
    if let Some((r2, _)) = dates_spec(body) {
        lemma_rest_of_rest(r2, body, s);
    }
    lemma_datetime_rest(body);
    if let Some((r2, _)) = datetime_spec(body) {
        lemma_rest_of_rest(r2, body, s);
    }
    if let Some((r1, _)) = literal_spec(s, 'R') {
        lemma_u32_digit_rest(r1);
        let r2 = match u32_digit_spec(r1) {
            Some((r2, _)) => r2,
            None => r1,
        };
        lemma_skip_is_rest(r1, 0);
        assert(r1.skip(0) =~= r1);
        lemma_rest_of_rest(r2, r1, s);
        if let Some((r3, _)) = literal_spec(r2, '/') {
            lemma_skip_is_rest(r2, 1);
            lemma_rest_of_rest(r3, r2, s);
            lemma_interval_rest(r3);
            if let Some((r4, _)) = crate::recurring::dates_spec(r3) {
                lemma_rest_of_rest(r4, r3, s);
            }
        }
    }
}

} // verus!
