//! The canonical text of every value: the shortest text that the grammar
//! reads back as that value.

use vstd::prelude::*;
use vstd::string::*;
use crate::{
    Date, DateTime, DateTimeOrDuration, Duration, GedcomxDate, Range, Recurring, Simple, Time,
};

verus! {

/// The ASCII digit for a number below ten.
pub open spec fn digit_char(d: nat) -> char {
    if d == 0 {
        '0'
    } else if d == 1 {
        '1'
    } else if d == 2 {
        '2'
    } else if d == 3 {
        '3'
    } else if d == 4 {
        '4'
    } else if d == 5 {
        '5'
    } else if d == 6 {
        '6'
    } else if d == 7 {
        '7'
    } else if d == 8 {
        '8'
    } else {
        '9'
    }
}

/// The decimal digits of `n`, without leading zeros.
pub open spec fn decimal(n: nat) -> Seq<char>
    decreases n,
{
    if n < 10 {
        seq![digit_char(n)]
    } else {
        decimal(n / 10).push(digit_char(n % 10))
    }
}

/// The decimal digits of `n`, with zeros in front up to `width` characters.
/// A number with more digits is written in full.
pub open spec fn zero_padded(n: nat, width: nat) -> Seq<char> {
    let digits = decimal(n);
    if digits.len() >= width {
        digits
    } else {
        Seq::new((width - digits.len()) as nat, |i: int| '0') + digits
    }
}

/// The absolute value of `v`.
pub open spec fn magnitude(v: int) -> nat {
    if v < 0 {
        (-v) as nat
    } else {
        v as nat
    }
}

/// The sign character of `v`: `-` below zero, else `+`.
pub open spec fn sign_char(v: int) -> char {
    if v < 0 {
        '-'
    } else {
        '+'
    }
}

/// A signed number in a field of two characters: zeros fill the field
/// behind the sign, which takes one of its places.
pub open spec fn signed_two_wide(v: int) -> Seq<char> {
    if v < 0 {
        seq!['-'] + decimal(magnitude(v))
    } else {
        zero_padded(magnitude(v), 2)
    }
}

/// One component of a duration: the number and its letter, or nothing where
/// the number is zero.
pub open spec fn component_text(v: u32, letter: char) -> Seq<char> {
    if v > 0 {
        decimal(v as nat).push(letter)
    } else {
        Seq::empty()
    }
}

/// A timezone offset: nothing without offset hours, `Z` for zero hours and
/// zero minutes, else the signed hours and, unless they are zero, a colon
/// and the magnitude of the minutes. Offset hours that stand without offset minutes are
/// written as a signed number two characters wide.
pub open spec fn timezone_text(hours: Option<i32>, minutes: Option<i32>) -> Seq<char> {
    match (hours, minutes) {
        (Some(h), None) => signed_two_wide(h as int),
        (Some(h), Some(m)) => if h == 0 && m == 0 {
            seq!['Z']
        } else {
            seq![sign_char(h as int)] + zero_padded(magnitude(h as int), 2) + (if m != 0 {
                seq![':'] + zero_padded(magnitude(m as int), 2)
            } else {
                Seq::empty()
            })
        },
        _ => Seq::empty(),
    }
}

impl Date {
    /// Sign, year of at least four digits, then `-MM` and `-DD` as far as
    /// they are present; a day is written only behind a month.
    pub open spec fn text(&self) -> Seq<char> {
        seq![sign_char(self.year as int)] + zero_padded(magnitude(self.year as int), 4) + (
        match self.month {
            Some(m) => seq!['-'] + zero_padded(m as nat, 2) + (match self.day {
                Some(d) => seq!['-'] + zero_padded(d as nat, 2),
                None => Seq::empty(),
            }),
            None => Seq::empty(),
        })
    }
}

impl Time {
    /// Two-digit hours, `:MM` and `:SS` where present, then the timezone.
    pub open spec fn text(&self) -> Seq<char> {
        zero_padded(self.hours as nat, 2) + (match self.minutes {
            Some(m) => seq![':'] + zero_padded(m as nat, 2),
            None => Seq::empty(),
        }) + (match self.seconds {
            Some(s) => seq![':'] + zero_padded(s as nat, 2),
            None => Seq::empty(),
        }) + timezone_text(self.tz_offset_hours, self.tz_offset_minutes)
    }
}

/// The text of a date followed, where there is a time, by `T` and the time.
pub open spec fn date_time_text(date: Date, time: Option<Time>) -> Seq<char> {
    date.text() + (match time {
        Some(t) => seq!['T'] + t.text(),
        None => Seq::empty(),
    })
}

impl DateTime {
    /// The date and, where there is a time, `T` and the time.
    pub open spec fn text(&self) -> Seq<char> {
        date_time_text(self.date, self.time)
    }
}

impl Duration {
    /// The date components of the text, each only if it is not zero.
    pub open spec fn date_part_text(&self) -> Seq<char> {
        component_text(self.years, 'Y') + component_text(self.months, 'M') + component_text(
            self.days,
            'D',
        )
    }

    /// The time section of the text: nothing if hours, minutes and seconds
    /// are all zero, else `T` and each component that is not zero.
    pub open spec fn time_part_text(&self) -> Seq<char> {
        if self.hours > 0 || self.minutes > 0 || self.seconds > 0 {
            seq!['T'] + component_text(self.hours, 'H') + component_text(self.minutes, 'M')
                + component_text(self.seconds, 'S')
        } else {
            Seq::empty()
        }
    }

    /// `P`, the date components and the time section; a bare `P` for the
    /// duration zero.
    pub open spec fn text(&self) -> Seq<char> {
        seq!['P'] + self.date_part_text() + self.time_part_text()
    }
}

impl DateTimeOrDuration {
    /// The text of the date or of the duration that this is.
    pub open spec fn text(&self) -> Seq<char> {
        match *self {
            DateTimeOrDuration::DateTime(dt) => dt.text(),
            DateTimeOrDuration::Duration(d) => d.text(),
        }
    }
}

/// The approximate marker, or nothing.
pub open spec fn approximate_text(approximate: bool) -> Seq<char> {
    if approximate {
        seq!['A']
    } else {
        Seq::empty()
    }
}

impl Simple {
    /// An optional `A`, the date and, where present, `T` and the time.
    pub open spec fn text(&self) -> Seq<char> {
        approximate_text(self.approximate) + date_time_text(self.date, self.time)
    }
}

impl Range {
    /// The two sides: the start if present, `/`, the end if present.
    pub open spec fn sides_text(&self) -> Seq<char> {
        (match self.start {
            Some(s) => s.text(),
            None => Seq::empty(),
        }) + seq!['/'] + (match self.end {
            Some(e) => e.text(),
            None => Seq::empty(),
        })
    }

    /// An optional `A` and the two sides.
    pub open spec fn text(&self) -> Seq<char> {
        approximate_text(self.approximate) + self.sides_text()
    }
}

impl Recurring {
    /// `R`, the count if present, `/`, the start, `/`, the end.
    pub open spec fn text(&self) -> Seq<char> {
        seq!['R'] + (match self.count {
            Some(c) => decimal(c as nat),
            None => Seq::empty(),
        }) + seq!['/'] + self.start.text() + seq!['/'] + self.end.text()
    }
}

impl GedcomxDate {
    /// The text of the simple date, range or recurring date that this is.
    pub open spec fn text(&self) -> Seq<char> {
        match *self {
            GedcomxDate::Simple(s) => s.text(),
            GedcomxDate::Range(r) => r.text(),
            GedcomxDate::Recurring(r) => r.text(),
        }
    }
}

/// The one-character string of a digit.
pub fn digit_str(d: u32) -> (s: &'static str)
    requires
        d < 10,
    ensures
        s@ == seq![digit_char(d as nat)],
{
    proof {
        reveal_strlit("0");
        reveal_strlit("1");
        reveal_strlit("2");
        reveal_strlit("3");
        reveal_strlit("4");
        reveal_strlit("5");
        reveal_strlit("6");
        reveal_strlit("7");
        reveal_strlit("8");
        reveal_strlit("9");
    }
    let s = match d {
        0 => "0",
        1 => "1",
        2 => "2",
        3 => "3",
        4 => "4",
        5 => "5",
        6 => "6",
        7 => "7",
        8 => "8",
        _ => "9",
    };
    assert(s@ =~= seq![digit_char(d as nat)]);
    s
}

/// Appends the decimal digits of `n`.
pub fn push_decimal(out: &mut String, n: u32)
    ensures
        final(out)@ == old(out)@ + decimal(n as nat),
    decreases n,
{
    if n < 10 {
        out.append(digit_str(n));
    } else {
        push_decimal(out, n / 10);
        out.append(digit_str(n % 10));
        assert(final(out)@ =~= old(out)@ + decimal(n as nat));
    }
}

/// The number of decimal digits of `n`.
pub fn decimal_len(n: u32) -> (k: usize)
    ensures
        k == decimal(n as nat).len(),
        1 <= k <= 10,
    decreases n,
{
    if n < 10 {
        1
    } else {
        let k = decimal_len(n / 10);
        assert(k <= 9) by {
            lemma_decimal_len_bound(n as nat / 10);
        }
        k + 1
    }
}

/// A number below a power of ten has at most that many digits.
pub proof fn lemma_decimal_len_bound(n: nat)
    ensures
        n < 10 ==> decimal(n).len() == 1,
        10 <= n < 100 ==> decimal(n).len() == 2,
        100 <= n < 1000 ==> decimal(n).len() == 3,
        1000 <= n < 10000 ==> decimal(n).len() == 4,
        n < 1000000000 ==> decimal(n).len() <= 9,
{
    reveal_with_fuel(decimal, 10);
}

/// Appends the decimal digits of `n`, with zeros in front up to `width`
/// characters.
pub fn push_zero_padded(out: &mut String, n: u32, width: usize)
    ensures
        final(out)@ == old(out)@ + zero_padded(n as nat, width as nat),
{
    let k = decimal_len(n);
    let mut written: usize = k;
    let ghost zeros: Seq<char> = Seq::empty();
    while written < width
        invariant
            k <= written,
            written <= width || written == k,
            zeros == Seq::new((written - k) as nat, |i: int| '0'),
            out@ == old(out)@ + zeros,
        decreases width - written,
    {
        proof {
            reveal_strlit("0");
        }
        out.append("0");
        written += 1;
        proof {
            let more = Seq::new((written - k) as nat, |i: int| '0');
            assert(out@ =~= old(out)@ + more);
            zeros = more;
        }
    }
    push_decimal(out, n);
    assert(final(out)@ =~= old(out)@ + zero_padded(n as nat, width as nat));
}

/// `c` is one of the marks and designator letters that the canonical text
/// is made of besides digits.
pub open spec fn is_symbol(c: char) -> bool {
    c == '+' || c == '-' || c == ':' || c == '/' || c == 'A' || c == 'D' || c == 'H' || c == 'M'
        || c == 'P' || c == 'R' || c == 'S' || c == 'T' || c == 'Y' || c == 'Z'
}

/// The one-character string of a mark or designator letter.
pub fn symbol(c: char) -> (s: &'static str)
    requires
        is_symbol(c),
    ensures
        s@ == seq![c],
{
    proof {
        reveal_strlit("+");
        reveal_strlit("-");
        reveal_strlit(":");
        reveal_strlit("/");
        reveal_strlit("A");
        reveal_strlit("D");
        reveal_strlit("H");
        reveal_strlit("M");
        reveal_strlit("P");
        reveal_strlit("R");
        reveal_strlit("S");
        reveal_strlit("T");
        reveal_strlit("Y");
        reveal_strlit("Z");
    }
    let s = match c {
        '+' => "+",
        '-' => "-",
        ':' => ":",
        '/' => "/",
        'A' => "A",
        'D' => "D",
        'H' => "H",
        'M' => "M",
        'P' => "P",
        'R' => "R",
        'S' => "S",
        'T' => "T",
        'Y' => "Y",
        _ => "Z",
    };
    assert(s@ =~= seq![c]);
    s
}

/// The absolute value of a 32-bit number, which always fits unsigned.
pub fn magnitude_of(v: i32) -> (m: u32)
    ensures
        m == magnitude(v as int),
{
    if v < 0 {
        (-(v as i64)) as u32
    } else {
        v as u32
    }
}

/// Appends one component of a duration.
pub fn push_component(out: &mut String, v: u32, letter: char)
    requires
        is_symbol(letter),
    ensures
        final(out)@ == old(out)@ + component_text(v, letter),
{
    if v > 0 {
        push_decimal(out, v);
        out.append(symbol(letter));
    }
    assert(final(out)@ =~= old(out)@ + component_text(v, letter));
}

/// Appends a timezone offset.
pub fn push_timezone(out: &mut String, hours: Option<i32>, minutes: Option<i32>)
    ensures
        final(out)@ == old(out)@ + timezone_text(hours, minutes),
{
    match (hours, minutes) {
        (Some(h), None) => {
            if h < 0 {
                out.append(symbol('-'));
                push_decimal(out, magnitude_of(h));
            } else {
                push_zero_padded(out, magnitude_of(h), 2);
            }
        },
        (Some(h), Some(m)) => {
            if h == 0 && m == 0 {
                out.append(symbol('Z'));
            } else {
                out.append(symbol(if h < 0 { '-' } else { '+' }));
                push_zero_padded(out, magnitude_of(h), 2);
                if m != 0 {
                    out.append(symbol(':'));
                    push_zero_padded(out, magnitude_of(m), 2);
                }
            }
        },
        _ => {},
    }
    assert(final(out)@ =~= old(out)@ + timezone_text(hours, minutes));
}

/// Appends a date and, where there is a time, `T` and the time.
pub fn push_date_time(out: &mut String, date: &Date, time: &Option<Time>)
    ensures
        final(out)@ == old(out)@ + date_time_text(*date, *time),
{
    date.append_to(out);
    if let Some(t) = time {
        out.append(symbol('T'));
        t.append_to(out);
    }
    assert(final(out)@ =~= old(out)@ + date_time_text(*date, *time));
}

impl Date {
    /// Appends the canonical text of this date.
    pub fn append_to(&self, out: &mut String)
        ensures
            final(out)@ == old(out)@ + self.text(),
    {
        out.append(symbol(if self.year < 0 { '-' } else { '+' }));
        push_zero_padded(out, magnitude_of(self.year), 4);
        if let Some(m) = self.month {
            out.append(symbol('-'));
            push_zero_padded(out, m, 2);
            if let Some(d) = self.day {
                out.append(symbol('-'));
                push_zero_padded(out, d, 2);
            }
        }
        assert(final(out)@ =~= old(out)@ + self.text());
    }

    /// The canonical text of this date.
    pub fn to_string(&self) -> (s: String)
        ensures
            s@ == self.text(),
    {
        let mut s = String::new();
        self.append_to(&mut s);
        assert(s@ =~= self.text());
        s
    }
}

impl Time {
    /// Appends the canonical text of this time.
    pub fn append_to(&self, out: &mut String)
        ensures
            final(out)@ == old(out)@ + self.text(),
    {
        push_zero_padded(out, self.hours, 2);
        if let Some(m) = self.minutes {
            out.append(symbol(':'));
            push_zero_padded(out, m, 2);
        }
        if let Some(s) = self.seconds {
            out.append(symbol(':'));
            push_zero_padded(out, s, 2);
        }
        push_timezone(out, self.tz_offset_hours, self.tz_offset_minutes);
        assert(final(out)@ =~= old(out)@ + self.text());
    }

    /// The canonical text of this time.
    pub fn to_string(&self) -> (s: String)
        ensures
            s@ == self.text(),
    {
        let mut s = String::new();
        self.append_to(&mut s);
        assert(s@ =~= self.text());
        s
    }
}

impl DateTime {
    /// Appends the canonical text of this date and time.
    pub fn append_to(&self, out: &mut String)
        ensures
            final(out)@ == old(out)@ + self.text(),
    {
        push_date_time(out, &self.date, &self.time);
    }

    /// The canonical text of this date and time.
    pub fn to_string(&self) -> (s: String)
        ensures
            s@ == self.text(),
    {
        let mut s = String::new();
        self.append_to(&mut s);
        assert(s@ =~= self.text());
        s
    }
}

impl Duration {
    /// Appends the canonical text of this duration.
    pub fn append_to(&self, out: &mut String)
        ensures
            final(out)@ == old(out)@ + self.text(),
    {
        out.append(symbol('P'));
        push_component(out, self.years, 'Y');
        push_component(out, self.months, 'M');
        push_component(out, self.days, 'D');
        if self.hours > 0 || self.minutes > 0 || self.seconds > 0 {
            out.append(symbol('T'));
        }
        push_component(out, self.hours, 'H');
        push_component(out, self.minutes, 'M');
        push_component(out, self.seconds, 'S');
        assert(final(out)@ =~= old(out)@ + self.text());
    }

    /// The canonical text of this duration.
    pub fn to_string(&self) -> (s: String)
        ensures
            s@ == self.text(),
    {
        let mut s = String::new();
        self.append_to(&mut s);
        assert(s@ =~= self.text());
        s
    }
}

impl DateTimeOrDuration {
    /// Appends the canonical text of this end value.
    pub fn append_to(&self, out: &mut String)
        ensures
            final(out)@ == old(out)@ + self.text(),
    {
        match self {
            DateTimeOrDuration::DateTime(dt) => dt.append_to(out),
            DateTimeOrDuration::Duration(d) => d.append_to(out),
        }
    }

    /// The canonical text of this end value.
    pub fn to_string(&self) -> (s: String)
        ensures
            s@ == self.text(),
    {
        let mut s = String::new();
        self.append_to(&mut s);
        assert(s@ =~= self.text());
        s
    }
}

impl Simple {
    /// Appends the canonical text of this simple date.
    pub fn append_to(&self, out: &mut String)
        ensures
            final(out)@ == old(out)@ + self.text(),
    {
        if self.approximate {
            out.append(symbol('A'));
        }
        push_date_time(out, &self.date, &self.time);
        assert(final(out)@ =~= old(out)@ + self.text());
    }

    /// The canonical text of this simple date.
    pub fn to_string(&self) -> (s: String)
        ensures
            s@ == self.text(),
    {
        let mut s = String::new();
        self.append_to(&mut s);
        assert(s@ =~= self.text());
        s
    }
}

impl Range {
    /// Appends the canonical text of this range.
    pub fn append_to(&self, out: &mut String)
        ensures
            final(out)@ == old(out)@ + self.text(),
    {
        if self.approximate {
            out.append(symbol('A'));
        }
        if let Some(start) = &self.start {
            start.append_to(out);
        }
        out.append(symbol('/'));
        if let Some(end) = &self.end {
            end.append_to(out);
        }
        assert(final(out)@ =~= old(out)@ + self.text());
    }

    /// The canonical text of this range.
    pub fn to_string(&self) -> (s: String)
        ensures
            s@ == self.text(),
    {
        let mut s = String::new();
        self.append_to(&mut s);
        assert(s@ =~= self.text());
        s
    }
}

impl Recurring {
    /// Appends the canonical text of this recurring date.
    pub fn append_to(&self, out: &mut String)
        ensures
            final(out)@ == old(out)@ + self.text(),
    {
        out.append(symbol('R'));
        if let Some(count) = self.count {
            push_decimal(out, count);
        }
        out.append(symbol('/'));
        self.start.append_to(out);
        out.append(symbol('/'));
        self.end.append_to(out);
        assert(final(out)@ =~= old(out)@ + self.text());
    }

    /// The canonical text of this recurring date.
    pub fn to_string(&self) -> (s: String)
        ensures
            s@ == self.text(),
    {
        let mut s = String::new();
        self.append_to(&mut s);
        assert(s@ =~= self.text());
        s
    }
}

impl GedcomxDate {
    /// Appends the canonical text of this date.
    pub fn append_to(&self, out: &mut String)
        ensures
            final(out)@ == old(out)@ + self.text(),
    {
        match self {
            GedcomxDate::Simple(simple) => simple.append_to(out),
            GedcomxDate::Range(range) => range.append_to(out),
            GedcomxDate::Recurring(recurring) => recurring.append_to(out),
        }
    }

    /// The canonical text of this date.
    pub fn to_string(&self) -> (s: String)
        ensures
            s@ == self.text(),
    {
        let mut s = String::new();
        self.append_to(&mut s);
        assert(s@ =~= self.text());
        s
    }
}

} // verus!
