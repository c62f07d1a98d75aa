//! Expiration dates of offline keys: `YYYY.MM.DD`, midnight UTC, as Unix timestamps.

use crate::text;
use vstd::prelude::*;

verus! {

/// What is said of a date that is none, or whose timestamp is zero or exceeds 32 bits.
pub const INVALID_DATE: &'static str =
    "Invalid offline expiration date: expected YYYY.MM.DD within the supported timestamp range";

/// Leap years of the Gregorian calendar.
pub open spec fn is_leap(year: int) -> bool {
    year % 4 == 0 && (year % 100 != 0 || year % 400 == 0)
}

/// The number of days of a year.
pub open spec fn days_in_year(year: int) -> int {
    if is_leap(year) {
        366
    } else {
        365
    }
}

/// The number of days of a month, 1 being January.
pub open spec fn days_in_month(year: int, month: int) -> int {
    if month == 2 {
        if is_leap(year) {
            29
        } else {
            28
        }
    } else if month == 4 || month == 6 || month == 9 || month == 11 {
        30
    } else {
        31
    }
}

/// The number of days from the beginning of 1970 to the beginning of `year`.
pub open spec fn days_before_year(year: int) -> int
    decreases year - 1970,
{
    if year <= 1970 {
        0
    } else {
        days_before_year(year - 1) + days_in_year(year - 1)
    }
}

/// The number of days from the beginning of `year` to the beginning of `month`.
pub open spec fn days_before_month(year: int, month: int) -> int
    decreases month,
{
    if month <= 1 {
        0
    } else {
        days_before_month(year, month - 1) + days_in_month(year, month - 1)
    }
}

/// Whether year, month and day are a date of the calendar from 1970 on.
pub open spec fn is_date(year: int, month: int, day: int) -> bool {
    1970 <= year && 1 <= month <= 12 && 1 <= day <= days_in_month(year, month)
}

/// The number of days from 1 January 1970 to a date.
pub open spec fn day_number(year: int, month: int, day: int) -> int {
    days_before_year(year) + days_before_month(year, month) + day - 1
}

/// Whether the bytes have the form `dddd.dd.dd`.
pub open spec fn is_date_text(s: Seq<u8>) -> bool {
    &&& s.len() == 10
    &&& s[4] == '.' as u8
    &&& s[7] == '.' as u8
    &&& text::all_digits(s.subrange(0, 4))
    &&& text::all_digits(s.subrange(5, 7))
    &&& text::all_digits(s.subrange(8, 10))
}

/// The year that a date text names.
pub open spec fn year_of(s: Seq<u8>) -> int {
    text::digits_value(s.subrange(0, 4))
}

/// The month that a date text names.
pub open spec fn month_of(s: Seq<u8>) -> int {
    text::digits_value(s.subrange(5, 7))
}

/// The day of the month that a date text names.
pub open spec fn day_of(s: Seq<u8>) -> int {
    text::digits_value(s.subrange(8, 10))
}

/// The Unix timestamp of the midnight with which the named day begins, where the text names a
/// date up to 2106 and the timestamp is positive and fits in 32 bits.
pub open spec fn expiration(s: Seq<u8>) -> Option<u32> {
    let seconds = day_number(year_of(s), month_of(s), day_of(s)) * 86400;
    if is_date_text(s) && is_date(year_of(s), month_of(s), day_of(s)) && year_of(s) <= 2106 && 0
        < seconds <= u32::MAX {
        Some(seconds as u32)
    } else {
        None
    }
}

/// [`expiration`] with the error that stands for `None`.
pub open spec fn expiration_outcome(s: Seq<u8>) -> Result<u32, Seq<char>> {
    match expiration(s) {
        Some(seconds) => Ok(seconds),
        None => Err(INVALID_DATE@),
    }
}

proof fn lemma_digit_values(s: Seq<u8>, n: int)
    requires
        text::all_digits(s),
        s.len() == n,
        n == 2 || n == 4,
    ensures
        n == 2 ==> text::digits_value(s) == (s[0] - 48) * 10 + (s[1] - 48),
        n == 4 ==> text::digits_value(s) == (s[0] - 48) * 1000 + (s[1] - 48) * 100 + (s[2] - 48)
            * 10 + (s[3] - 48),
        forall|i: int| 0 <= i < n ==> 48 <= #[trigger] s[i] <= 57,
{
    reveal_with_fuel(text::digits_value, 5);
    assert forall|i: int| 0 <= i < n implies 48 <= #[trigger] s[i] <= 57 by {
        assert(text::is_digit(s[i]));
    }
}

proof fn lemma_days_before_year(year: int)
    requires
        1970 <= year <= 2107,
    ensures
        0 <= days_before_year(year) <= 366 * (year - 1970),
    decreases year,
{
    if year > 1970 {
        lemma_days_before_year(year - 1);
    }
}

proof fn lemma_days_before_month(year: int, month: int)
    requires
        1 <= month <= 13,
    ensures
        0 <= days_before_month(year, month) <= 31 * (month - 1),
        days_before_month(year, 13) == days_in_year(year),
    decreases month,
{
    reveal_with_fuel(days_before_month, 13);
    if month > 1 {
        lemma_days_before_month(year, month - 1);
    }
}

fn leap(year: u32) -> (r: bool)
    ensures
        r == is_leap(year as int),
{
    year % 4 == 0 && (year % 100 != 0 || year % 400 == 0)
}

fn month_days(year: u32, month: u32) -> (r: u32)
    ensures
        r == days_in_month(year as int, month as int),
        28 <= r <= 31,
{
    if month == 2 {
        if leap(year) {
            29
        } else {
            28
        }
    } else if month == 4 || month == 6 || month == 9 || month == 11 {
        30
    } else {
        31
    }
}

/// The number that two digits write.
fn two_digits(s: &[u8], at: usize) -> (r: u32)
    requires
        at + 2 <= s@.len(),
        text::all_digits(s@.subrange(at as int, at + 2)),
    ensures
        r == text::digits_value(s@.subrange(at as int, at + 2)),
        r < 100,
{
    proof {
        let d = s@.subrange(at as int, at + 2);
        lemma_digit_values(d, 2);
        assert(d[0] == s@[at as int] && d[1] == s@[at + 1]);
    }
    (s[at] - 48) as u32 * 10 + (s[at + 1] - 48) as u32
}

/// The expiration that a date text names.
pub fn parse_expiration_bytes(s: &[u8]) -> (r: Result<u32, String>)
    ensures
        text::agrees(r, expiration_outcome(s@)),
{
    if s.len() != 10 || s[4] != '.' as u8 || s[7] != '.' as u8 || !text::only_digits(
        vstd::slice::slice_subrange(s, 0, 4),
    ) || !text::only_digits(vstd::slice::slice_subrange(s, 5, 7)) || !text::only_digits(
        vstd::slice::slice_subrange(s, 8, 10),
    ) {
        return Err(INVALID_DATE.to_owned());
    }
    proof {
        let d = s@.subrange(0, 4);
        lemma_digit_values(d, 4);
        assert(d.subrange(0, 2) =~= s@.subrange(0, 2));
        assert(d.subrange(2, 4) =~= s@.subrange(2, 4));
        assert(text::all_digits(s@.subrange(0, 2))) by {
            assert forall|i: int| 0 <= i < 2 implies text::is_digit(#[trigger] s@.subrange(0, 2)[i]) by {
                assert(text::is_digit(d[i]));
            }
        }
        assert(text::all_digits(s@.subrange(2, 4))) by {
            assert forall|i: int| 0 <= i < 2 implies text::is_digit(#[trigger] s@.subrange(2, 4)[i]) by {
                assert(text::is_digit(d[i + 2]));
            }
        }
        lemma_digit_values(s@.subrange(0, 2), 2);
        lemma_digit_values(s@.subrange(2, 4), 2);
    }
    let year: u32 = two_digits(s, 0) * 100 + two_digits(s, 2);
    let month: u32 = two_digits(s, 5);
    let day: u32 = two_digits(s, 8);
    assert(year == year_of(s@) && month == month_of(s@) && day == day_of(s@));
    if year < 1970 || year > 2106 || month < 1 || month > 12 || day == 0 || day > month_days(
        year,
        month,
    ) {
        return Err(INVALID_DATE.to_owned());
    }
    let mut days: u32 = 0;
    let mut y: u32 = 1970;
    while y < year
        invariant
            1970 <= y <= year <= 2106,
            days == days_before_year(y as int),
        decreases year - y,
    {
        proof {
            lemma_days_before_year(y as int);
        }
        days = days + if leap(y) {
            366
        } else {
            365
        };
        y += 1;
    }
    let mut m: u32 = 1;
    let ghost before = days as int;
    proof {
        lemma_days_before_year(year as int);
    }
    while m < month
        invariant
            1 <= m <= month <= 12,
            0 <= before == days_before_year(year as int) <= 366 * 136,
            days == before + days_before_month(year as int, m as int),
        decreases month - m,
    {
        proof {
            lemma_days_before_month(year as int, m as int);
        }
        days = days + month_days(year, m);
        m += 1;
    }
    proof {
        lemma_days_before_month(year as int, month as int);
    }
    days = days + day - 1;
    match days.checked_mul(86400) {
        Some(seconds) if seconds > 0 => Ok(seconds),
        _ => Err(INVALID_DATE.to_owned()),
    }
}

/// Reads an expiration date. The date is the first day on which the key is no longer valid, from
/// midnight UTC on.
pub fn parse_expiration(date: &str) -> (r: Result<u32, String>)
    ensures
        text::agrees(r, expiration_outcome(text::utf8(date@))),
{
    parse_expiration_bytes(date.as_bytes())
}

/// Whether one date comes before another.
pub open spec fn earlier(y1: int, m1: int, d1: int, y2: int, m2: int, d2: int) -> bool {
    y1 < y2 || (y1 == y2 && (m1 < m2 || (m1 == m2 && d1 < d2)))
}

proof fn lemma_years_grow(a: int, b: int)
    requires
        1970 <= a < b,
    ensures
        days_before_year(a) + days_in_year(a) <= days_before_year(b),
    decreases b,
{
    if a < b - 1 {
        lemma_years_grow(a, b - 1);
    }
}

proof fn lemma_months_grow(year: int, a: int, b: int)
    requires
        1 <= a < b,
    ensures
        days_before_month(year, a) + days_in_month(year, a) <= days_before_month(year, b),
    decreases b,
{
    if a < b - 1 {
        lemma_months_grow(year, a, b - 1);
    }
}

/// The calendar counts days in their order: an earlier date has a smaller number.
pub proof fn law_dates_are_ordered(y1: int, m1: int, d1: int, y2: int, m2: int, d2: int)
    requires
        is_date(y1, m1, d1),
        is_date(y2, m2, d2),
        earlier(y1, m1, d1, y2, m2, d2),
    ensures
        day_number(y1, m1, d1) < day_number(y2, m2, d2),
{
    lemma_days_before_month(y1, m1);
    lemma_days_before_month(y2, m2);
    if y1 < y2 {
        lemma_years_grow(y1, y2);
        lemma_months_grow(y1, m1, 13);
    } else if m1 < m2 {
        lemma_months_grow(y1, m1, m2);
    }
}

/// The day after a date, in the UTC calendar, is the next number: within a month, over the end of
/// a month and over the end of a year.
pub proof fn law_days_follow_each_other(year: int, month: int, day: int)
    requires
        is_date(year, month, day),
    ensures
        day < days_in_month(year, month) ==> day_number(year, month, day + 1) == day_number(
            year,
            month,
            day,
        ) + 1,
        day == days_in_month(year, month) && month < 12 ==> day_number(year, month + 1, 1)
            == day_number(year, month, day) + 1,
        day == days_in_month(year, month) && month == 12 ==> day_number(year + 1, 1, 1)
            == day_number(year, month, day) + 1,
        day_number(1970, 1, 1) == 0,
{
    lemma_days_before_month(year, month);
}

/// The days of the years up to a year, without a sum: 365 for each, and one for each leap year.
proof fn lemma_years_in_closed_form(year: int)
    requires
        1970 <= year,
    ensures
        days_before_year(year) == 365 * (year - 1970) + (year - 1969) / 4 - (year - 1901) / 100 + (
        year - 1601) / 400,
    decreases year,
{
    if year > 1970 {
        lemma_years_in_closed_form(year - 1);
    }
}

/// The calendar is the Gregorian one: a text `YYYY.MM.DD` names an expiration exactly where the
/// year is one from 1970 to 2106, the month is one of twelve and the day is one of its 31, 28 or
/// 29, 31, 30, 31, 30, 31, 31, 30, 31, 30 or 31 days, other than the first day of 1970 and those
/// from 8 February 2106 on. The expiration is 86400 seconds for each day since then: 365 for each
/// year, one for each leap year, and those of the months before.
pub proof fn law_expirations_follow_the_gregorian_calendar(
    s: Seq<u8>,
    year: int,
    month: int,
    day: int,
)
    requires
        year == (s[0] - 48) * 1000 + (s[1] - 48) * 100 + (s[2] - 48) * 10 + (s[3] - 48),
        month == (s[5] - 48) * 10 + (s[6] - 48),
        day == (s[8] - 48) * 10 + (s[9] - 48),
    ensures
        expiration(s) is Some <==> {
            let leap: int = if year % 4 == 0 && (year % 100 != 0 || year % 400 == 0) {
                1
            } else {
                0
            };
            &&& s.len() == 10
            &&& forall|i: int| 0 <= i < 10 && i != 4 && i != 7 ==> 48 <= #[trigger] s[i] <= 57
            &&& s[4] == 46
            &&& s[7] == 46
            &&& 1970 <= year <= 2106
            &&& 1 <= month <= 12
            &&& 1 <= day <= seq![
                31int,
                28 + leap,
                31,
                30,
                31,
                30,
                31,
                31,
                30,
                31,
                30,
                31,
            ][month - 1]
            &&& !(year == 1970 && month == 1 && day == 1)
            &&& !(year == 2106 && (month > 2 || month == 2 && day > 7))
        },
        expiration(s) matches Some(seconds) ==> seconds == 86400 * (365 * (year - 1970) + (year
            - 1969) / 4 - (year - 1901) / 100 + (year - 1601) / 400 + seq![
            0int,
            31,
            59,
            90,
            120,
            151,
            181,
            212,
            243,
            273,
            304,
            334,
        ][month - 1] + (if month > 2 && year % 4 == 0 && (year % 100 != 0 || year % 400 == 0) {
            1int
        } else {
            0int
        }) + day - 1),
{
    let (a, b, c) = (s.subrange(0, 4), s.subrange(5, 7), s.subrange(8, 10));
    let digits = forall|i: int|
        0 <= i < 10 && i != 4 && i != 7 ==> 48 <= #[trigger] s[i] <= 57;
    if s.len() != 10 {
    } else if text::all_digits(a) && text::all_digits(b) && text::all_digits(c) {
        lemma_digit_values(a, 4);
        lemma_digit_values(b, 2);
        lemma_digit_values(c, 2);
        assert(a[0] == s[0] && a[1] == s[1] && a[2] == s[2] && a[3] == s[3]);
        assert(b[0] == s[5] && b[1] == s[6] && c[0] == s[8] && c[1] == s[9]);
        assert forall|i: int| 0 <= i < 10 && i != 4 && i != 7 implies 48 <= #[trigger] s[i] <= 57 by {
            if i < 4 {
                assert(text::is_digit(a[i]));
            } else if i < 7 {
                assert(text::is_digit(b[i - 5]));
            } else {
                assert(text::is_digit(c[i - 8]));
            }
        }
        assert(year_of(s) == year && month_of(s) == month && day_of(s) == day);
        if 1970 <= year && 1 <= month <= 12 {
            lemma_years_in_closed_form(year);
            lemma_days_before_month(year, month);
            reveal_with_fuel(days_before_month, 13);
        }
    } else if digits {
        assert(text::all_digits(a)) by {
            assert(forall|i: int| 0 <= i < 4 ==> #[trigger] a[i] == s[i]);
        }
        assert(text::all_digits(b)) by {
            assert(forall|i: int| 0 <= i < 2 ==> #[trigger] b[i] == s[i + 5]);
        }
        assert(text::all_digits(c)) by {
            assert(forall|i: int| 0 <= i < 2 ==> #[trigger] c[i] == s[i + 8]);
        }
    }
}

/// An expiration is a midnight, and no two date texts name the same one.
pub proof fn law_expirations_are_distinct_midnights(a: Seq<u8>, b: Seq<u8>, seconds: u32)
    requires
        expiration(a) == Some(seconds),
        expiration(b) == Some(seconds),
    ensures
        seconds % 86400 == 0,
        seconds > 0,
        a == b,
{
    let (y1, m1, d1) = (year_of(a), month_of(a), day_of(a));
    let (y2, m2, d2) = (year_of(b), month_of(b), day_of(b));
    if earlier(y1, m1, d1, y2, m2, d2) {
        law_dates_are_ordered(y1, m1, d1, y2, m2, d2);
    } else if earlier(y2, m2, d2, y1, m1, d1) {
        law_dates_are_ordered(y2, m2, d2, y1, m1, d1);
    }
    lemma_digit_values(a.subrange(0, 4), 4);
    lemma_digit_values(b.subrange(0, 4), 4);
    lemma_digit_values(a.subrange(5, 7), 2);
    lemma_digit_values(b.subrange(5, 7), 2);
    lemma_digit_values(a.subrange(8, 10), 2);
    lemma_digit_values(b.subrange(8, 10), 2);
    assert forall|i: int| 0 <= i < 4 implies a[i] == b[i] by {
        assert(a.subrange(0, 4)[i] == a[i] && b.subrange(0, 4)[i] == b[i]);
        assert(a.subrange(0, 4)[0] == b.subrange(0, 4)[0]);
    }
    assert forall|i: int| 5 <= i < 7 implies a[i] == b[i] by {
        assert(a.subrange(5, 7)[i - 5] == a[i] && b.subrange(5, 7)[i - 5] == b[i]);
    }
    assert forall|i: int| 8 <= i < 10 implies a[i] == b[i] by {
        assert(a.subrange(8, 10)[i - 8] == a[i] && b.subrange(8, 10)[i - 8] == b[i]);
    }
    assert(a =~= b);
}

} // verus!
