//! Normalisation of a compact `YYYYMMDD` upload date into the RFC 2822
//! timestamp of that day's midnight in UTC.
use vstd::prelude::*;
use crate::text::{
    all_trim_chars, is_trim_char, lemma_trimmed_ignores_padding, trim_end, trim_field, trim_start,
    trimmed,
};

verus! {

/// Why a raw upload date was rejected.
#[derive(Debug, Clone, Copy, PartialEq, Eq, Structural)]
pub enum InvalidDate {
    /// After trimming, the text is not exactly eight characters long.
    Length,
    /// A character of the year, month or day is not a decimal digit.
    Digits,
    /// The year, month and day name no day of the Gregorian calendar.
    Calendar,
}

pub open spec fn is_digit(c: char) -> bool {
    '0' <= c && c <= '9'
}

/// The number written by the decimal digits `s`.
pub open spec fn digits_value(s: Seq<char>) -> int
    decreases s.len(),
{
    if s.len() == 0 {
        0
    } else {
        digits_value(s.drop_last()) * 10 + (s.last() as int - '0' as int)
    }
}

pub open spec fn is_leap_year(y: int) -> bool {
    (y % 4 == 0 && y % 100 != 0) || y % 400 == 0
}

pub open spec fn days_in_month(y: int, m: int) -> int {
    if m == 2 {
        if is_leap_year(y) { 29 } else { 28 }
    } else if m == 4 || m == 6 || m == 9 || m == 11 {
        30
    } else {
        31
    }
}

/// `y`-`m`-`d` is a day of the proleptic Gregorian calendar.
pub open spec fn is_valid_ymd(y: int, m: int, d: int) -> bool {
    1 <= m <= 12 && 1 <= d <= days_in_month(y, m)
}

/// The day of the week of a Gregorian date, 0 for Sunday up to 6 for Saturday.
pub open spec fn weekday_from_sunday(y: int, m: int, d: int) -> int {
    let yy = if m < 3 { y - 1 } else { y };
    let shift: int = if m == 1 { 0 } else if m == 2 { 3 } else if m == 3 { 2 } else if m == 4 { 5 }
        else if m == 5 { 0 } else if m == 6 { 3 } else if m == 7 { 5 } else if m == 8 { 1 }
        else if m == 9 { 4 } else if m == 10 { 6 } else if m == 11 { 2 } else { 4 };
    (yy + yy / 4 - yy / 100 + yy / 400 + shift + d) % 7
}

pub open spec fn digit_char(n: int) -> char {
    if n == 0 { '0' } else if n == 1 { '1' } else if n == 2 { '2' } else if n == 3 { '3' }
    else if n == 4 { '4' } else if n == 5 { '5' } else if n == 6 { '6' } else if n == 7 { '7' }
    else if n == 8 { '8' } else { '9' }
}

pub open spec fn two_digits(n: int) -> Seq<char> {
    seq![digit_char(n / 10), digit_char(n % 10)]
}

pub open spec fn weekday_name(w: int) -> Seq<char> {
    if w == 0 { seq!['S', 'u', 'n'] } else if w == 1 { seq!['M', 'o', 'n'] }
    else if w == 2 { seq!['T', 'u', 'e'] } else if w == 3 { seq!['W', 'e', 'd'] }
    else if w == 4 { seq!['T', 'h', 'u'] } else if w == 5 { seq!['F', 'r', 'i'] }
    else { seq!['S', 'a', 't'] }
}

pub open spec fn month_name(m: int) -> Seq<char> {
    if m == 1 { seq!['J', 'a', 'n'] } else if m == 2 { seq!['F', 'e', 'b'] }
    else if m == 3 { seq!['M', 'a', 'r'] } else if m == 4 { seq!['A', 'p', 'r'] }
    else if m == 5 { seq!['M', 'a', 'y'] } else if m == 6 { seq!['J', 'u', 'n'] }
    else if m == 7 { seq!['J', 'u', 'l'] } else if m == 8 { seq!['A', 'u', 'g'] }
    else if m == 9 { seq!['S', 'e', 'p'] } else if m == 10 { seq!['O', 'c', 't'] }
    else if m == 11 { seq!['N', 'o', 'v'] } else { seq!['D', 'e', 'c'] }
}

/// The RFC 2822 text of midnight UTC on `y`-`m`-`d` (`y` within 0..=9999),
/// as in `Mon, 02 Jan 2006 00:00:00 +0000`: two-digit day, four-digit year.
pub open spec fn rfc2822_midnight(y: int, m: int, d: int) -> Seq<char> {
    weekday_name(weekday_from_sunday(y, m, d)) + seq![',', ' '] + two_digits(d) + seq![' ']
        + month_name(m) + seq![' '] + two_digits(y / 100) + two_digits(y % 100)
        + seq![' ', '0', '0', ':', '0', '0', ':', '0', '0', ' ', '+', '0', '0', '0', '0']
}

/// What `normalize` gives for the raw text `raw`: the timestamp of its date,
/// or why the date was rejected.
pub open spec fn normalized(raw: Seq<char>) -> Result<Seq<char>, InvalidDate> {
    let t = trimmed(raw);
    if t.len() != 8 {
        Err(InvalidDate::Length)
    } else if !(forall|i: int| 0 <= i < 8 ==> is_digit(#[trigger] t[i])) {
        Err(InvalidDate::Digits)
    } else {
        let y = digits_value(t.subrange(0, 4));
        let m = digits_value(t.subrange(4, 6));
        let d = digits_value(t.subrange(6, 8));
        if is_valid_ymd(y, m, d) {
            Ok(rfc2822_midnight(y, m, d))
        } else {
            Err(InvalidDate::Calendar)
        }
    }
}

/// Relies on chrono's `NaiveDate::from_ymd_opt` (`Some` exactly for a
/// Gregorian date within its year range), `NaiveDate::and_hms_opt` (valid for
/// 00:00:00), `NaiveDateTime::and_utc` and `DateTime::format` with
/// `%a, %d %b %Y %H:%M:%S %z`: English short weekday, zero-padded day, short
/// month, zero-padded four-digit year for years 0..=9999, time, and `+0000`.
#[verifier::external_body]
fn midnight_rfc2822(year: i32, month: u32, day: u32) -> (r: Option<String>)
    requires
        0 <= year <= 9999,
    ensures
        r is Some <==> is_valid_ymd(year as int, month as int, day as int),
        r matches Some(s) ==> s@ == rfc2822_midnight(year as int, month as int, day as int),
{
    let date = chrono::NaiveDate::from_ymd_opt(year, month, day)?;
    let midnight = date.and_hms_opt(0, 0, 0)?;
    Some(midnight.and_utc().format("%a, %d %b %Y %H:%M:%S %z").to_string())
}

proof fn lemma_digits_value_bound(s: Seq<char>)
    requires
        forall|i: int| 0 <= i < s.len() ==> is_digit(#[trigger] s[i]),
    ensures
        0 <= digits_value(s) < pow10(s.len()),
    decreases s.len(),
{
    if s.len() > 0 {
        lemma_digits_value_bound(s.drop_last());
        let v = digits_value(s.drop_last());
        let p = pow10(s.drop_last().len());
        assert(is_digit(s[s.len() - 1]));
        assert(v * 10 + 9 < p * 10) by (nonlinear_arith)
            requires
                v < p,
        ;
    }
}

proof fn lemma_pow10_small()
    ensures
        pow10(0) == 1,
        pow10(1) == 10,
        pow10(2) == 100,
        pow10(3) == 1000,
        pow10(4) == 10000,
{
    reveal_with_fuel(pow10, 5);
}

pub open spec fn pow10(n: nat) -> int
    decreases n,
{
    if n == 0 { 1 } else { 10 * pow10((n - 1) as nat) }
}

/// The number written by the digits of `t` from `from` up to `to`.
fn digits_number(t: &str, from: usize, to: usize) -> (r: u32)
    requires
        from <= to <= t@.len(),
        to - from <= 4,
        forall|i: int| from <= i < to ==> is_digit(#[trigger] t@[i]),
    ensures
        r as int == digits_value(t@.subrange(from as int, to as int)),
{
    let mut v: u32 = 0;
    let mut i: usize = from;
    assert(t@.subrange(from as int, from as int).len() == 0);
    while i < to
        invariant
            from <= i <= to <= t@.len(),
            to - from <= 4,
            forall|k: int| from <= k < to ==> is_digit(#[trigger] t@[k]),
            v as int == digits_value(t@.subrange(from as int, i as int)),
        decreases to - i,
    {
        let c = t.get_char(i);
        let ghost next = t@.subrange(from as int, i + 1);
        assert(next.drop_last() =~= t@.subrange(from as int, i as int));
        assert(next.last() == c);
        proof {
            assert forall|k: int| 0 <= k < next.len() implies is_digit(#[trigger] next[k]) by {
                assert(next[k] == t@[from + k]);
            }
            lemma_digits_value_bound(next);
            lemma_pow10_small();
        }
        v = v * 10 + ((c as u32) - ('0' as u32));
        i = i + 1;
    }
    v
}

/// Turns a compact `YYYYMMDD` date, possibly wrapped in quotes and whitespace,
/// into the RFC 2822 timestamp of midnight UTC on that day.
pub fn normalize(raw: &str) -> (r: Result<String, InvalidDate>)
    ensures
        match r {
            Ok(s) => normalized(raw@) == Ok::<Seq<char>, InvalidDate>(s@),
            Err(e) => normalized(raw@) == Err::<Seq<char>, InvalidDate>(e),
        },
{
    let t = trim_field(raw);
    if t.unicode_len() != 8 {
        return Err(InvalidDate::Length);
    }
    let mut i: usize = 0;
    while i < 8
        invariant
            t@ == trimmed(raw@),
            t@.len() == 8,
            i <= 8,
            forall|k: int| 0 <= k < i ==> is_digit(#[trigger] t@[k]),
        decreases 8 - i,
    {
        let c = t.get_char(i);
        if !('0' <= c && c <= '9') {
            assert(!is_digit(t@[i as int]));
            return Err(InvalidDate::Digits);
        }
        i = i + 1;
    }
    let year = digits_number(t, 0, 4);
    let month = digits_number(t, 4, 6);
    let day = digits_number(t, 6, 8);
    proof {
        lemma_digits_value_bound(t@.subrange(0, 4));
        lemma_pow10_small();
    }
    match midnight_rfc2822(year as i32, month, day) {
        Some(s) => Ok(s),
        None => Err(InvalidDate::Calendar),
    }
}

/// Eight characters that are all decimal digits.
pub open spec fn is_eight_digits(s: Seq<char>) -> bool {
    s.len() == 8 && forall|i: int| 0 <= i < 8 ==> is_digit(#[trigger] s[i])
}

/// The year, month and day that eight digits `YYYYMMDD` spell.
pub open spec fn year_of(s: Seq<char>) -> int {
    digits_value(s.subrange(0, 4))
}

pub open spec fn month_of(s: Seq<char>) -> int {
    digits_value(s.subrange(4, 6))
}

pub open spec fn day_of(s: Seq<char>) -> int {
    digits_value(s.subrange(6, 8))
}

proof fn lemma_digits_untouched_by_trim(s: Seq<char>)
    requires
        is_eight_digits(s),
    ensures
        trimmed(s) == s,
{
    assert(!is_trim_char(s[0]));
    assert(trim_start(s) == s);
    assert(!is_trim_char(s.last()));
    assert(trim_end(s) == s);
}

/// Eight digits that spell a Gregorian date normalise to the timestamp of
/// midnight UTC on exactly that year, month and day.
pub proof fn lemma_valid_date_normalizes(s: Seq<char>)
    requires
        is_eight_digits(s),
        is_valid_ymd(year_of(s), month_of(s), day_of(s)),
    ensures
        normalized(s) == Ok::<Seq<char>, InvalidDate>(
            rfc2822_midnight(year_of(s), month_of(s), day_of(s)),
        ),
{
    lemma_digits_untouched_by_trim(s);
}

/// A date that, once trimmed, is not eight characters long, holds a character
/// that is not a digit, or names no day of the calendar, is rejected.
pub proof fn lemma_malformed_date_rejected(s: Seq<char>)
    requires
        !is_eight_digits(trimmed(s)) || !is_valid_ymd(
            year_of(trimmed(s)),
            month_of(trimmed(s)),
            day_of(trimmed(s)),
        ),
    ensures
        normalized(s) is Err,
{
}

/// Quotes and whitespace around a raw date never change what `normalize` gives.
pub proof fn lemma_normalize_ignores_padding(p: Seq<char>, s: Seq<char>, q: Seq<char>)
    requires
        all_trim_chars(p),
        all_trim_chars(q),
    ensures
        normalized(p + s + q) == normalized(s),
{
    lemma_trimmed_ignores_padding(p, s, q);
}

} // verus!
