//! Reading back what was written: the grammar maps the canonical text of a
//! value to that value.

use vstd::prelude::*;
use crate::duration::{component_spec, duration_spec, duration_time_spec};
use crate::laws::lemma_parse_well_formed;
use crate::parse_spec;
use crate::parsers::datetime_or_duration_spec;
use crate::range::{dates_spec, full_spec, leading_spec, range_spec, trailing_spec};
use crate::recurring::recurring_spec;
use crate::render::{
    approximate_text, component_text, decimal, digit_char, magnitude, sign_char, timezone_text,
    zero_padded,
};
use crate::scan::{
    bounded_pair_spec, decimal_value, digit_run, digit_value, is_digit, lemma_digit_run,
    literal_spec, u32_digit_spec,
};
use crate::simple::{
    approximate_spec, datetime_spec, hhmm_spec, hhmmss_spec, hms_spec, optional_timezone_spec,
    parse_time_spec, sign_spec, simple_date_spec, take_4_digits_spec, timezone_minute_spec,
    year_prefix_spec, year_spec, ymd_spec, yyyymm_spec, yyyymmdd_spec,
};
use crate::{
    Date, DateTime, DateTimeOrDuration, Duration, GedcomxDate, Range, Recurring, Simple, Time,
};

verus! {

/// `s` is empty or starts with a character other than `c`.
pub open spec fn not_starting_with(s: Seq<char>, c: char) -> bool {
    s.len() == 0 || s[0] != c
}

/// `s` is empty or starts with `/`: what may follow a date or a time inside
/// a longer text.
pub open spec fn at_boundary(s: Seq<char>) -> bool {
    s.len() == 0 || s[0] == '/'
}

/// A digit character stands for the number it was made from.
pub proof fn lemma_digit_char(d: nat)
    requires
        d < 10,
    ensures
        is_digit(digit_char(d)),
        digit_value(digit_char(d)) == d,
{
}

/// Behind a text, the rest is what was appended to it.
pub proof fn lemma_skip_prefix(a: Seq<char>, b: Seq<char>)
    ensures
        (a + b).skip(a.len() as int) == b,
        (a + b).take(a.len() as int) == a,
{
    assert((a + b).skip(a.len() as int) =~= b);
    assert((a + b).take(a.len() as int) =~= a);
}

/// A character in front of a text is recognized as that character.
pub proof fn lemma_literal(c: char, r: Seq<char>)
    ensures
        literal_spec(seq![c] + r, c) == Some((r, c)),
{
    lemma_skip_prefix(seq![c], r);
}

/// A number below one hundred is written with exactly two digits.
pub proof fn lemma_two_wide(v: nat)
    requires
        v < 100,
    ensures
        zero_padded(v, 2) == seq![digit_char(v / 10), digit_char(v % 10)],
{
    reveal_with_fuel(decimal, 3);
    assert(zero_padded(v, 2) =~= seq![digit_char(v / 10), digit_char(v % 10)]);
}

/// A number below ten thousand is written with exactly four digits.
pub proof fn lemma_four_wide(v: nat)
    requires
        v < 10000,
    ensures
        zero_padded(v, 4) == seq![
            digit_char(v / 1000),
            digit_char((v / 100) % 10),
            digit_char((v / 10) % 10),
            digit_char(v % 10),
        ],
{
    reveal_with_fuel(decimal, 5);
    assert(zero_padded(v, 4) =~= seq![
        digit_char(v / 1000),
        digit_char((v / 100) % 10),
        digit_char((v / 10) % 10),
        digit_char(v % 10),
    ]);
}

/// A two-digit field reads back the number written into it.
pub proof fn lemma_bounded_pair(v: u32, lo: int, hi: int, r: Seq<char>)
    requires
        lo <= v <= hi,
        v < 100,
    ensures
        bounded_pair_spec(zero_padded(v as nat, 2) + r, lo, hi) == Some((r, v)),
{
    let t = zero_padded(v as nat, 2);
    lemma_two_wide(v as nat);
    lemma_digit_char(v as nat / 10);
    lemma_digit_char(v as nat % 10);
    lemma_skip_prefix(t, r);
    assert((t + r)[0] == t[0]);
    assert((t + r)[1] == t[1]);
}

/// A year of at most four digits reads back from its sign and digits.
pub proof fn lemma_year(y: i32, r: Seq<char>)
    requires
        -9999 <= y <= 9999,
    ensures
        year_spec(seq![sign_char(y as int)] + zero_padded(magnitude(y as int), 4) + r) == Some(
            (r, y),
        ),
{
    let v = magnitude(y as int);
    let digits = zero_padded(v, 4);
    let s = seq![sign_char(y as int)] + digits + r;
    lemma_four_wide(v);
    lemma_digit_char(v / 1000);
    lemma_digit_char((v / 100) % 10);
    lemma_digit_char((v / 10) % 10);
    lemma_digit_char(v % 10);
    let r1 = digits + r;
    assert(s =~= seq![sign_char(y as int)] + r1);
    lemma_literal(sign_char(y as int), r1);
    assert(year_prefix_spec(s) == Some((r1, sign_char(y as int))));
    lemma_skip_prefix(digits, r);
    assert(r1[0] == digits[0] && r1[1] == digits[1] && r1[2] == digits[2] && r1[3] == digits[3]);
    assert(take_4_digits_spec(r1) == Some((r, v as u32)));
}

/// A well-formed date with a four-digit year reads back from its text,
/// whatever follows that does not start with `-`.
pub proof fn lemma_date(d: Date, r: Seq<char>)
    requires
        d.well_formed(),
        d.has_four_digit_year(),
        not_starting_with(r, '-'),
    ensures
        ymd_spec(d.text() + r) == Some((r, d)),
{
    let head = seq![sign_char(d.year as int)] + zero_padded(magnitude(d.year as int), 4);
    let s = d.text() + r;
    match d.month {
        None => {
            assert(s =~= head + r);
            lemma_year(d.year, r);
            assert(literal_spec(r, '-') is None);
        },
        Some(m) => {
            let mm = zero_padded(m as nat, 2);
            match d.day {
                None => {
                    let r1 = seq!['-'] + (mm + r);
                    assert(s =~= head + r1);
                    lemma_year(d.year, r1);
                    lemma_literal('-', mm + r);
                    lemma_bounded_pair(m, 1, 12, r);
                    assert(yyyymm_spec(s) == Some((r, d)));
                    assert(literal_spec(r, '-') is None);
                },
                Some(dd) => {
                    let dt = zero_padded(dd as nat, 2);
                    let r2 = seq!['-'] + (dt + r);
                    let r1 = seq!['-'] + (mm + r2);
                    assert(s =~= head + r1);
                    lemma_year(d.year, r1);
                    lemma_literal('-', mm + r2);
                    lemma_bounded_pair(m, 1, 12, r2);
                    lemma_literal('-', dt + r);
                    lemma_bounded_pair(dd, 1, 31, r);
                    assert(yyyymmdd_spec(s) == Some((r, d)));
                },
            }
        },
    }
}

/// A timezone offset reads back from its text at the end of a time.
pub proof fn lemma_timezone(hours: Option<i32>, minutes: Option<i32>, r: Seq<char>)
    requires
        hours is Some <==> minutes is Some,
        hours matches Some(h) ==> -24 <= h <= 24,
        minutes matches Some(m) ==> 0 <= m <= 59,
        at_boundary(r),
    ensures
        optional_timezone_spec(timezone_text(hours, minutes) + r) == (r, (hours, minutes)),
        not_starting_with(timezone_text(hours, minutes) + r, ':'),
{
    let s = timezone_text(hours, minutes) + r;
    match (hours, minutes) {
        (Some(h), Some(m)) => {
            if h == 0 && m == 0 {
                lemma_literal('Z', r);
                assert(s[0] == 'Z');
                assert(literal_spec(s, '-') is None && literal_spec(s, '+') is None);
            } else {
                let sc = sign_char(h as int);
                let hh = zero_padded(magnitude(h as int), 2);
                let mh = magnitude(h as int) as u32;
                let mm = magnitude(m as int) as u32;
                assert(bounded_pair_spec(r, 0, 59) is None);
                if m != 0 {
                    let tail = seq![':'] + (zero_padded(mm as nat, 2) + r);
                    let r1 = hh + tail;
                    assert(s =~= seq![sc] + r1);
                    lemma_literal(sc, r1);
                    assert(s[0] == sc);
                    lemma_bounded_pair(mh, 0, 24, tail);
                    lemma_literal(':', zero_padded(mm as nat, 2) + r);
                    lemma_bounded_pair(mm, 0, 59, r);
                    assert(timezone_minute_spec(tail) == Some((r, mm)));
                    assert(sign_spec(s) == Some((r1, if h < 0 { -1i32 } else { 1i32 })));
                } else {
                    let r1 = hh + r;
                    assert(s =~= seq![sc] + r1);
                    lemma_literal(sc, r1);
                    assert(s[0] == sc);
                    lemma_bounded_pair(mh, 0, 24, r);
                    assert(literal_spec(r, ':') is None);
                    assert(timezone_minute_spec(r) == Some((r, 0u32)));
                    assert(sign_spec(s) == Some((r1, if h < 0 { -1i32 } else { 1i32 })));
                }
            }
        },
        _ => {
            assert(s =~= r);
        },
    }
}

/// The text of hours and, where present, minutes and seconds.
pub open spec fn hms_text(hours: u32, minutes: Option<u32>, seconds: Option<u32>) -> Seq<char> {
    zero_padded(hours as nat, 2) + (match minutes {
        Some(m) => seq![':'] + zero_padded(m as nat, 2),
        None => Seq::empty(),
    }) + (match seconds {
        Some(s) => seq![':'] + zero_padded(s as nat, 2),
        None => Seq::empty(),
    })
}

/// Hours alone read back, whatever follows that does not start with `:`.
proof fn lemma_hh(h: u32, z: Seq<char>)
    requires
        h <= 24,
        not_starting_with(z, ':'),
    ensures
        hms_spec(zero_padded(h as nat, 2) + z) == Some((z, (h, None::<u32>, None::<u32>))),
{
    lemma_bounded_pair(h, 0, 24, z);
    assert(literal_spec(z, ':') is None);
}

/// Hours and minutes read back, whatever follows that does not start with
/// `:`.
proof fn lemma_hhmm(h: u32, m: u32, z: Seq<char>)
    requires
        h <= 24,
        m <= 59,
    ensures
        hhmm_spec(zero_padded(h as nat, 2) + (seq![':'] + (zero_padded(m as nat, 2) + z)))
            == Some((z, (h, Some(m), None::<u32>))),
{
    let mm = zero_padded(m as nat, 2);
    lemma_bounded_pair(h, 0, 24, seq![':'] + (mm + z));
    lemma_literal(':', mm + z);
    lemma_bounded_pair(m, 0, 59, z);
}

/// Hours, minutes and seconds read back from their text, as far as they are
/// present, whatever follows that does not start with `:`.
pub proof fn lemma_hms(h: u32, m: Option<u32>, sec: Option<u32>, z: Seq<char>)
    requires
        h <= 24,
        m matches Some(v) ==> v <= 59,
        sec matches Some(v) ==> v <= 60,
        sec is Some ==> m is Some,
        not_starting_with(z, ':'),
    ensures
        hms_spec(hms_text(h, m, sec) + z) == Some((z, (h, m, sec))),
{
    let s = hms_text(h, m, sec) + z;
    let hh = zero_padded(h as nat, 2);
    match m {
        None => {
            assert(s =~= hh + z);
            lemma_hh(h, z);
        },
        Some(mv) => {
            let mm = zero_padded(mv as nat, 2);
            match sec {
                None => {
                    assert(s =~= hh + (seq![':'] + (mm + z)));
                    lemma_hhmm(h, mv, z);
                    assert(literal_spec(z, ':') is None);
                    assert(hhmmss_spec(s) is None);
                },
                Some(sv) => {
                    let ss = zero_padded(sv as nat, 2);
                    let r2 = seq![':'] + (ss + z);
                    assert(s =~= hh + (seq![':'] + (mm + r2)));
                    lemma_hhmm(h, mv, r2);
                    lemma_literal(':', ss + z);
                    lemma_bounded_pair(sv, 0, 60, z);
                    assert(hhmmss_spec(s) == Some((z, (h, m, sec))));
                },
            }
        },
    }
}

/// A well-formed time reads back from its text.
pub proof fn lemma_time(t: Time, r: Seq<char>)
    requires
        t.well_formed(),
        at_boundary(r),
    ensures
        parse_time_spec(t.text() + r) == Some((r, t)),
{
    let z = timezone_text(t.tz_offset_hours, t.tz_offset_minutes) + r;
    let s = t.text() + r;
    lemma_timezone(t.tz_offset_hours, t.tz_offset_minutes, r);
    lemma_hms(t.hours, t.minutes, t.seconds, z);
    assert(s =~= hms_text(t.hours, t.minutes, t.seconds) + z);
}

/// A well-formed date with optional time reads back from its text.
pub proof fn lemma_datetime(dt: DateTime, r: Seq<char>)
    requires
        dt.well_formed(),
        dt.has_four_digit_year(),
        at_boundary(r),
    ensures
        datetime_spec(dt.text() + r) == Some((r, dt)),
{
    let s = dt.text() + r;
    match dt.time {
        None => {
            assert(s =~= dt.date.text() + r);
            lemma_date(dt.date, r);
            assert(literal_spec(r, 'T') is None);
        },
        Some(t) => {
            let r1 = seq!['T'] + (t.text() + r);
            assert(s =~= dt.date.text() + r1);
            assert(r1[0] == 'T');
            lemma_date(dt.date, r1);
            lemma_literal('T', t.text() + r);
            lemma_time(t, r);
        },
    }
}

/// The decimal digits of a number are digits, and there is at least one.
pub proof fn lemma_decimal_digits(n: nat)
    ensures
        decimal(n).len() >= 1,
        forall|j: int| 0 <= j < decimal(n).len() ==> is_digit(#[trigger] decimal(n)[j]),
    decreases n,
{
    if n < 10 {
        lemma_digit_char(n);
    } else {
        lemma_decimal_digits(n / 10);
        lemma_digit_char(n % 10);
    }
}

/// The decimal digits of a number denote that number.
pub proof fn lemma_decimal_value(n: nat)
    ensures
        decimal_value(decimal(n)) == n,
    decreases n,
{
    reveal_with_fuel(decimal_value, 2);
    if n < 10 {
        lemma_digit_char(n);
        assert(decimal(n).drop_last() =~= Seq::<char>::empty());
    } else {
        lemma_decimal_value(n / 10);
        lemma_digit_char(n % 10);
        assert(decimal(n).drop_last() =~= decimal(n / 10));
    }
}

/// A number reads back from its decimal digits, whatever follows that does
/// not start with a digit.
pub proof fn lemma_u32_digit(n: u32, r: Seq<char>)
    requires
        r.len() == 0 || !is_digit(r[0]),
    ensures
        u32_digit_spec(decimal(n as nat) + r) == Some((r, n)),
{
    let digits = decimal(n as nat);
    let s = digits + r;
    lemma_decimal_digits(n as nat);
    lemma_decimal_value(n as nat);
    assert forall|j: int| 0 <= j < digits.len() implies is_digit(#[trigger] s[j]) by {
        assert(s[j] == digits[j]);
    }
    if r.len() > 0 {
        assert(s[digits.len() as int] == r[0]);
    }
    lemma_digit_run(s, digits.len());
    lemma_skip_prefix(digits, r);
}

/// A number and its designator read back as that component.
pub proof fn lemma_component_present(v: u32, letter: char, r: Seq<char>)
    requires
        !is_digit(letter),
    ensures
        component_spec(decimal(v as nat).push(letter) + r, letter) == (r, v),
{
    let tail = seq![letter] + r;
    assert(decimal(v as nat).push(letter) + r =~= decimal(v as nat) + tail);
    assert(tail[0] == letter);
    lemma_u32_digit(v, tail);
    lemma_literal(letter, r);
}

/// A text that does not start with a digit holds no component.
pub proof fn lemma_component_absent(s: Seq<char>, letter: char)
    requires
        s.len() == 0 || !is_digit(s[0]),
    ensures
        component_spec(s, letter) == (s, 0u32),
{
    assert(digit_run(s) == 0);
}

/// A component reads back from its text, where what follows is not taken
/// for the same component.
pub proof fn lemma_component(v: u32, letter: char, r: Seq<char>)
    requires
        !is_digit(letter),
        component_spec(r, letter) == (r, 0u32),
    ensures
        component_spec(component_text(v, letter) + r, letter) == (r, v),
{
    if v > 0 {
        lemma_component_present(v, letter, r);
    } else {
        assert(component_text(v, letter) + r =~= r);
    }
}

/// The text of one component is not taken for a component with another
/// designator.
pub proof fn lemma_component_skipped(v: u32, other: char, r: Seq<char>, letter: char)
    requires
        !is_digit(other),
        other != letter,
        component_spec(r, letter) == (r, 0u32),
    ensures
        component_spec(component_text(v, other) + r, letter) == (component_text(v, other) + r, 0u32),
{
    if v > 0 {
        let tail = seq![other] + r;
        assert(decimal(v as nat).push(other) + r =~= decimal(v as nat) + tail);
        assert(tail[0] == other);
        lemma_u32_digit(v, tail);
    } else {
        assert(component_text(v, other) + r =~= r);
    }
}

/// The time section of a duration reads back from its text.
pub proof fn lemma_duration_time(d: Duration)
    ensures
        duration_time_spec(d.time_part_text()) == if d.hours > 0 || d.minutes > 0 || d.seconds > 0 {
            Some((Seq::<char>::empty(), (d.hours, d.minutes, d.seconds)))
        } else {
            None
        },
{
    let end = Seq::<char>::empty();
    if d.hours > 0 || d.minutes > 0 || d.seconds > 0 {
        let cs = component_text(d.seconds, 'S') + end;
        let cm = component_text(d.minutes, 'M') + cs;
        let ch = component_text(d.hours, 'H') + cm;
        assert(d.time_part_text() =~= seq!['T'] + ch);
        lemma_literal('T', ch);
        lemma_component_absent(end, 'S');
        lemma_component_absent(end, 'M');
        lemma_component_absent(end, 'H');
        lemma_component_skipped(d.seconds, 'S', end, 'M');
        lemma_component_skipped(d.seconds, 'S', end, 'H');
        lemma_component_skipped(d.minutes, 'M', cs, 'H');
        lemma_component(d.hours, 'H', cm);
        lemma_component(d.minutes, 'M', cs);
        lemma_component(d.seconds, 'S', end);
    }
}

/// Every duration reads back from its text, which is then used up.
pub proof fn lemma_duration(d: Duration)
    ensures
        duration_spec(d.text()) == Some((Seq::<char>::empty(), d)),
{
    let tp = d.time_part_text();
    let cd = component_text(d.days, 'D') + tp;
    let cm = component_text(d.months, 'M') + cd;
    let cy = component_text(d.years, 'Y') + cm;
    assert(d.text() =~= seq!['P'] + cy);
    lemma_literal('P', cy);
    assert(tp.len() == 0 || tp[0] == 'T');
    lemma_component_absent(tp, 'D');
    lemma_component_absent(tp, 'M');
    lemma_component_absent(tp, 'Y');
    lemma_component_skipped(d.days, 'D', tp, 'M');
    lemma_component_skipped(d.days, 'D', tp, 'Y');
    lemma_component_skipped(d.months, 'M', cd, 'Y');
    lemma_component(d.years, 'Y', cm);
    lemma_component(d.months, 'M', cd);
    lemma_component(d.days, 'D', tp);
    lemma_duration_time(d);
}

/// The text of a date with optional time starts with the sign of the year.
pub proof fn lemma_datetime_start(dt: DateTime, r: Seq<char>)
    ensures
        (dt.text() + r).len() > 0,
        (dt.text() + r)[0] == '+' || (dt.text() + r)[0] == '-',
{
    assert(dt.date.text()[0] == sign_char(dt.date.year as int));
    assert(dt.text()[0] == dt.date.text()[0]);
}

/// A text that starts with neither `+` nor `-` holds no date.
pub proof fn lemma_no_datetime(s: Seq<char>)
    requires
        s.len() == 0 || (s[0] != '+' && s[0] != '-'),
    ensures
        datetime_spec(s) is None,
{
    assert(year_prefix_spec(s) is None);
}

/// The end of a range or recurrence reads back from its text, which is
/// then used up.
pub proof fn lemma_end(e: DateTimeOrDuration)
    requires
        e.well_formed(),
        e.has_four_digit_year(),
    ensures
        datetime_or_duration_spec(e.text()) == Some((Seq::<char>::empty(), e)),
{
    let end = Seq::<char>::empty();
    match e {
        DateTimeOrDuration::DateTime(dt) => {
            lemma_datetime_start(dt, end);
            assert(dt.text() + end =~= dt.text());
            assert(literal_spec(dt.text(), 'P') is None);
            assert(duration_spec(dt.text()) is None);
            lemma_datetime(dt, end);
        },
        DateTimeOrDuration::Duration(d) => {
            lemma_duration(d);
        },
    }
}

/// A start, `/` and an end read back as the two sides of an interval.
pub proof fn lemma_interval(start: DateTime, e: DateTimeOrDuration)
    requires
        start.well_formed(),
        start.has_four_digit_year(),
        e.well_formed(),
        e.has_four_digit_year(),
    ensures
        full_spec(start.text() + (seq!['/'] + e.text())) == Some(
            (Seq::<char>::empty(), (Some(start), Some(e))),
        ),
        crate::recurring::dates_spec(start.text() + (seq!['/'] + e.text())) == Some(
            (Seq::<char>::empty(), (start, e)),
        ),
{
    let r1 = seq!['/'] + e.text();
    assert(r1[0] == '/');
    lemma_datetime(start, r1);
    lemma_literal('/', e.text());
    lemma_end(e);
}

/// The approximate marker reads back in front of a text that does not
/// itself start with `A`.
pub proof fn lemma_approximate(approximate: bool, body: Seq<char>)
    requires
        not_starting_with(body, 'A'),
    ensures
        approximate_spec(approximate_text(approximate) + body) == if approximate {
            Some((body, true))
        } else {
            None
        },
{
    if approximate {
        lemma_literal('A', body);
    } else {
        assert(approximate_text(approximate) + body =~= body);
    }
}

/// The two sides of a well-formed range read back from their text, which
/// starts with neither `A` nor `R`.
pub proof fn lemma_range_sides(v: Range)
    requires
        v.well_formed(),
        v.has_four_digit_year(),
    ensures
        dates_spec(v.sides_text()) == Some((Seq::<char>::empty(), (v.start, v.end))),
        not_starting_with(v.sides_text(), 'A'),
        not_starting_with(v.sides_text(), 'R'),
{
    let end = Seq::<char>::empty();
    let body = v.sides_text();
    match v.start {
        Some(s) => {
            match v.end {
                Some(e) => {
                    let r1 = seq!['/'] + e.text();
                    assert(body =~= s.text() + r1);
                    lemma_datetime_start(s, r1);
                    lemma_interval(s, e);
                },
                None => {
                    let r1 = seq!['/'] + end;
                    assert(body =~= s.text() + r1);
                    assert(r1[0] == '/');
                    lemma_datetime_start(s, r1);
                    lemma_datetime(s, r1);
                    lemma_literal('/', end);
                    lemma_no_datetime(end);
                    assert(literal_spec(end, 'P') is None);
                    assert(datetime_or_duration_spec(end) is None);
                    assert(full_spec(body) is None);
                    assert(literal_spec(body, '/') is None);
                    assert(trailing_spec(body) is None);
                    assert(leading_spec(body) == Some((end, (v.start, v.end))));
                },
            }
        },
        None => {
            let e = v.end->0;
            let dt = e->DateTime_0;
            assert(body =~= seq!['/'] + e.text());
            assert(body[0] == '/');
            lemma_no_datetime(body);
            assert(full_spec(body) is None);
            lemma_literal('/', e.text());
            assert(dt.text() + end =~= dt.text());
            lemma_datetime(dt, end);
            assert(trailing_spec(body) == Some((end, (v.start, v.end))));
        },
    }
}

/// A well-formed range reads back from its text, which is no recurring
/// date.
pub proof fn lemma_range(v: Range)
    requires
        v.well_formed(),
        v.has_four_digit_year(),
    ensures
        range_spec(v.text()) == Some((Seq::<char>::empty(), GedcomxDate::Range(v))),
        recurring_spec(v.text()) is None,
{
    let body = v.sides_text();
    lemma_range_sides(v);
    lemma_approximate(v.approximate, body);
    assert(body.len() > 0);
    assert(v.text()[0] != 'R');
}

/// A well-formed simple date reads back from its text, which is neither a
/// recurring date nor a range.
pub proof fn lemma_simple(v: Simple)
    requires
        v.well_formed(),
        v.has_four_digit_year(),
    ensures
        simple_date_spec(v.text()) == Some((Seq::<char>::empty(), GedcomxDate::Simple(v))),
        range_spec(v.text()) is None,
        recurring_spec(v.text()) is None,
{
    let end = Seq::<char>::empty();
    let dt = v.datetime();
    let body = dt.text();
    lemma_datetime_start(dt, end);
    assert(body + end =~= body);
    lemma_datetime(dt, end);
    lemma_approximate(v.approximate, body);
    assert(v.text() =~= approximate_text(v.approximate) + body);
    assert(v.text()[0] != 'R');
    assert(literal_spec(end, '/') is None);
    assert(literal_spec(body, '/') is None);
    assert(full_spec(body) is None);
    assert(trailing_spec(body) is None);
    assert(leading_spec(body) is None);
    assert(dates_spec(body) is None);
}

/// A well-formed recurring date reads back from its text.
pub proof fn lemma_recurring(v: Recurring)
    requires
        v.well_formed(),
        v.has_four_digit_year(),
    ensures
        recurring_spec(v.text()) == Some((Seq::<char>::empty(), GedcomxDate::Recurring(v))),
{
    let interval = v.start.text() + (seq!['/'] + v.end.text());
    let r2 = seq!['/'] + interval;
    let r1 = (match v.count {
        Some(c) => decimal(c as nat),
        None => Seq::empty(),
    }) + r2;
    assert(v.text() =~= seq!['R'] + r1);
    lemma_literal('R', r1);
    assert(r2[0] == '/');
    match v.count {
        Some(c) => {
            lemma_u32_digit(c, r2);
        },
        None => {
            assert(r1 =~= r2);
            assert(digit_run(r2) == 0);
        },
    }
    lemma_literal('/', interval);
    lemma_interval(v.start, v.end);
}

/// Round trip: parsing the canonical text of a well-formed date whose years
/// have at most four digits gives that date back.
pub proof fn lemma_round_trip(v: GedcomxDate)
    requires
        v.well_formed(),
        v.has_four_digit_year(),
    ensures
        parse_spec(v.text()) == Some(v),
{
    match v {
        GedcomxDate::Simple(s) => {
            lemma_simple(s);
        },
        GedcomxDate::Range(r) => {
            lemma_range(r);
        },
        GedcomxDate::Recurring(r) => {
            lemma_recurring(r);
        },
    }
}

/// Whatever a text denotes reads back from its own canonical text.
pub proof fn lemma_round_trip_of_parsed(s: Seq<char>)
    requires
        parse_spec(s) is Some,
    ensures
        parse_spec(parse_spec(s)->0.text()) == parse_spec(s),
{
    lemma_parse_well_formed(s);
    lemma_round_trip(parse_spec(s)->0);
}

/// The canonical text tells values apart: two dates that both read back
/// from their text and have the same text are the same date.
pub proof fn lemma_text_injective(a: GedcomxDate, b: GedcomxDate)
    requires
        a.well_formed(),
        a.has_four_digit_year(),
        b.well_formed(),
        b.has_four_digit_year(),
        a.text() == b.text(),
    ensures
        a == b,
{
    lemma_round_trip(a);
    lemma_round_trip(b);
}

} // verus!
