//! Lexical building blocks shared by all grammar rules: the outcome of a
//! recognizer, single characters, fixed-width digit pairs and digit runs.

use vstd::prelude::*;
use vstd::std_specs::iter::IteratorSpec;
use vstd::string::*;

verus! {

/// A rule did not match at the start of the input. Nothing was consumed, and
/// the caller is free to try another alternative.
#[derive(Debug, PartialEq, Eq, Clone, Copy)]
pub struct NoMatch;

/// What a rule yields on a character sequence: nothing, or the rest of the
/// input behind the match together with the decoded value.
pub type Outcome<T> = Option<(Seq<char>, T)>;

/// What a recognizer returns: the rest of the input and the decoded value.
pub type Matched<'a, T> = Result<(&'a str, T), NoMatch>;

/// The recognizer's result `r` is exactly the rule's outcome `m`.
pub open spec fn agrees<T>(r: Matched<'_, T>, m: Outcome<T>) -> bool {
    match r {
        Ok((rest, v)) => m == Some((rest@, v)),
        Err(_) => m is None,
    }
}

/// Ordered choice: the first outcome where that rule matched, else the second.
pub open spec fn or_else<T>(first: Outcome<T>, second: Outcome<T>) -> Outcome<T> {
    if first is Some {
        first
    } else {
        second
    }
}

/// `c` is one of the ASCII digits.
pub open spec fn is_digit(c: char) -> bool {
    '0' <= c <= '9'
}

/// The number that the ASCII digit `c` stands for.
pub open spec fn digit_value(c: char) -> int {
    c as int - '0' as int
}

/// The rule for one given character.
pub open spec fn literal_spec(s: Seq<char>, c: char) -> Outcome<char> {
    if s.len() > 0 && s[0] == c {
        Some((s.skip(1), c))
    } else {
        None
    }
}

/// The value of two leading ASCII digits, read as a decimal number.
pub open spec fn two_digits_spec(s: Seq<char>) -> Option<int> {
    if s.len() >= 2 && is_digit(s[0]) && is_digit(s[1]) {
        Some(10 * digit_value(s[0]) + digit_value(s[1]))
    } else {
        None
    }
}

/// The rule for a two-digit field whose value lies in `lo..=hi`.
pub open spec fn bounded_pair_spec(s: Seq<char>, lo: int, hi: int) -> Outcome<u32> {
    match two_digits_spec(s) {
        Some(v) if lo <= v <= hi => Some((s.skip(2), v as u32)),
        _ => None,
    }
}

/// How many ASCII digits stand at the start of `s`.
pub open spec fn digit_run(s: Seq<char>) -> nat
    decreases s.len(),
{
    if s.len() > 0 && is_digit(s[0]) {
        1 + digit_run(s.skip(1))
    } else {
        0
    }
}

/// The number that a sequence of ASCII digits denotes in base ten; leading
/// zeros are allowed.
pub open spec fn decimal_value(s: Seq<char>) -> nat
    decreases s.len(),
{
    if s.len() == 0 {
        0
    } else {
        10 * decimal_value(s.drop_last()) + digit_value(s.last()) as nat
    }
}

/// The rule for an unsigned number: the longest run of digits at the start
/// of the input, at least one, whose value fits in 32 bits.
pub open spec fn u32_digit_spec(s: Seq<char>) -> Outcome<u32> {
    let k = digit_run(s);
    let v = decimal_value(s.take(k as int));
    if k > 0 && v <= u32::MAX {
        Some((s.skip(k as int), v as u32))
    } else {
        None
    }
}

/// A digit run is known by its length: digits up to `k`, and none at `k`.
pub proof fn lemma_digit_run(s: Seq<char>, k: nat)
    requires
        k <= s.len(),
        forall|j: int| 0 <= j < k ==> is_digit(#[trigger] s[j]),
        k == s.len() || !is_digit(s[k as int]),
    ensures
        digit_run(s) == k,
    decreases k,
{
    if k > 0 {
        let t = s.skip(1);
        assert forall|j: int| 0 <= j < k - 1 implies is_digit(#[trigger] t[j]) by {
            assert(t[j] == s[j + 1]);
        }
        lemma_digit_run(t, (k - 1) as nat);
    }
}

/// The input behind its first `k` characters.
pub fn skip<'a>(i: &'a str, k: usize) -> (rest: &'a str)
    requires
        k <= i@.len(),
    ensures
        rest@ == i@.skip(k as int),
{
    let n = i.unicode_len();
    i.substring_char(k, n)
}

/// Tests whether `c` is an ASCII digit.
pub fn is_digit_char(c: char) -> (b: bool)
    ensures
        b == is_digit(c),
{
    '0' <= c && c <= '9'
}

/// The number that an ASCII digit stands for.
pub fn digit_of(c: char) -> (d: u32)
    requires
        is_digit(c),
    ensures
        d == digit_value(c),
        d <= 9,
{
    (c as u32) - ('0' as u32)
}

/// Recognizes the character `c` at the start of the input.
pub fn literal<'a>(i: &'a str, c: char) -> (r: Matched<'a, char>)
    ensures
        agrees(r, literal_spec(i@, c)),
{
    if i.is_empty() {
        return Err(NoMatch);
    }
    if i.get_char(0) == c {
        Ok((skip(i, 1), c))
    } else {
        Err(NoMatch)
    }
}

/// Recognizes two ASCII digits whose decimal value lies in `lo..=hi`.
pub fn bounded_pair<'a>(i: &'a str, lo: u32, hi: u32) -> (r: Matched<'a, u32>)
    ensures
        agrees(r, bounded_pair_spec(i@, lo as int, hi as int)),
{
    if i.unicode_len() < 2 {
        return Err(NoMatch);
    }
    let a = i.get_char(0);
    let b = i.get_char(1);
    if !is_digit_char(a) || !is_digit_char(b) {
        return Err(NoMatch);
    }
    let v: u32 = 10 * digit_of(a) + digit_of(b);
    if lo <= v && v <= hi {
        Ok((skip(i, 2), v))
    } else {
        Err(NoMatch)
    }
}

/// Recognizes an unsigned decimal number of any length that fits in 32 bits.
pub fn u32_digit<'a>(i: &'a str) -> (r: Matched<'a, u32>)
    ensures
        agrees(r, u32_digit_spec(i@)),
{
    broadcast use vstd::string::group_string_axioms;

    let n = i.unicode_len();
    let mut rest = i.chars();
    let mut k: usize = 0;
    let mut acc: u32 = 0;
    let mut overflow = false;
    let mut at_end = false;
    while !at_end
        invariant
            n == i@.len(),
            k <= n,
            !at_end ==> rest.remaining() == i@.skip(k as int),
            forall|j: int| 0 <= j < k ==> is_digit(#[trigger] i@[j]),
            at_end ==> k == n || !is_digit(i@[k as int]),
            !overflow ==> acc == decimal_value(i@.take(k as int)),
            overflow ==> decimal_value(i@.take(k as int)) > u32::MAX,
        decreases n - k + (if at_end { 0int } else { 1int }),
    {
        match rest.next() {
            Some(c) => {
                assert(c == i@[k as int]);
                if is_digit_char(c) {
                    let d = digit_of(c);
                    proof {
                        let next = i@.take(k + 1);
                        assert(next.drop_last() =~= i@.take(k as int));
                        assert(next.last() == i@[k as int]);
                        assert(i@.skip(k as int).drop_first() =~= i@.skip(k + 1));
                    }
                    if !overflow {
                        if acc > (u32::MAX - d) / 10 {
                            overflow = true;
                        } else {
                            acc = acc * 10 + d;
                        }
                    }
                    k += 1;
                } else {
                    at_end = true;
                }
            },
            None => {
                at_end = true;
            },
        }
    }
    proof {
        lemma_digit_run(i@, k as nat);
    }
    if k == 0 || overflow {
        Err(NoMatch)
    } else {
        Ok((skip(i, k), acc))
    }
}

} // verus!
