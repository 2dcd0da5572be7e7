//! Calendar dates of the proleptic Gregorian calendar, in the range that the
//! `YYYY-MM-DD` notation can write: the years 0 to 9999.
//!
//! A date is modelled by its day number: the count of days with 1 January of
//! the year 1 as day 1. Order, distance and the day of the week are all stated
//! over that number.

use chrono::Datelike;
use chrono::NaiveDate;
use vstd::prelude::*;
use crate::text::char_of_digit;
use crate::text::chars_of;
use crate::text::digit_char;
use crate::text::digit_value;
use crate::text::is_digit;
use crate::text::is_digit_char;
use crate::text::string_of;

verus! {

/// The day number of 1 January of the year 0, the first date there is.
pub const FIRST_DAY: i32 = -365;

/// The day number of 31 December 9999, the last date there is.
pub const LAST_DAY: i32 = 3652059;

/// Whether year `y` has a 29 February.
pub open spec fn is_leap_year(y: int) -> bool {
    y % 4 == 0 && (y % 100 != 0 || y % 400 == 0)
}

/// The number of days of month `m` in year `y`.
pub open spec fn days_in_month(y: int, m: int) -> int {
    if m == 2 {
        if is_leap_year(y) {
            29
        } else {
            28
        }
    } else if m == 4 || m == 6 || m == 9 || m == 11 {
        30
    } else {
        31
    }
}

/// The number of days of year `y` that lie before its month `m`.
pub open spec fn days_before_month(y: int, m: int) -> int {
    let leap: int = if m > 2 && is_leap_year(y) {
        1
    } else {
        0
    };
    leap + if m <= 1 {
        0int
    } else if m == 2 {
        31
    } else if m == 3 {
        59
    } else if m == 4 {
        90
    } else if m == 5 {
        120
    } else if m == 6 {
        151
    } else if m == 7 {
        181
    } else if m == 8 {
        212
    } else if m == 9 {
        243
    } else if m == 10 {
        273
    } else if m == 11 {
        304
    } else {
        334
    }
}

/// The number of days from 1 January of the year 1 up to, and without,
/// 1 January of year `y` (negative for the year 0).
pub open spec fn days_before_year(y: int) -> int {
    365 * (y - 1) + (y - 1) / 4 - (y - 1) / 100 + (y - 1) / 400
}

/// The day number of day `d` of month `m` of year `y`.
pub open spec fn day_number_of(y: int, m: int, d: int) -> int {
    days_before_year(y) + days_before_month(y, m) + d
}

/// Whether year `y`, month `m` and day `d` name a date.
pub open spec fn valid_ymd(y: int, m: int, d: int) -> bool {
    0 <= y <= 9999 && 1 <= m <= 12 && 1 <= d <= days_in_month(y, m)
}

/// The day of the week of the day numbered `n`: 0 for Monday, up to 6 for Sunday.
pub open spec fn weekday_index(n: int) -> int {
    (n - 1) % 7
}

/// The day number of the Sunday that ends the week (Monday to Sunday) of day `n`.
pub open spec fn week_end(n: int) -> int {
    n + 6 - weekday_index(n)
}

/// The day number of the last day of the month that follows the month of
/// year `y`, month `m`.
pub open spec fn next_month_end(y: int, m: int) -> int {
    if m >= 11 {
        day_number_of(y + 1, m - 10, 1) - 1
    } else {
        day_number_of(y, m + 2, 1) - 1
    }
}

/// A calendar date.
#[derive(Clone, Copy, Debug, PartialEq, Eq, Structural)]
pub struct Date {
    pub year: i32,
    pub month: u32,
    pub day: u32,
}

/// The value of the four digits of `s` that start at `i`.
pub open spec fn four_digits(s: Seq<char>, i: int) -> int {
    digit_value(s[i]) * 1000 + digit_value(s[i + 1]) * 100 + digit_value(s[i + 2]) * 10
        + digit_value(s[i + 3])
}

/// The value of the two digits of `s` that start at `i`.
pub open spec fn two_digits(s: Seq<char>, i: int) -> int {
    digit_value(s[i]) * 10 + digit_value(s[i + 1])
}

/// Whether `s` is four digits, a hyphen, two digits, a hyphen and two digits.
pub open spec fn has_date_shape(s: Seq<char>) -> bool {
    &&& s.len() == 10
    &&& is_digit(s[0]) && is_digit(s[1]) && is_digit(s[2]) && is_digit(s[3])
    &&& s[4] == '-'
    &&& is_digit(s[5]) && is_digit(s[6])
    &&& s[7] == '-'
    &&& is_digit(s[8]) && is_digit(s[9])
}

/// The date that `s` writes in the notation `YYYY-MM-DD`, if it writes one.
pub open spec fn parse_date(s: Seq<char>) -> Option<Date> {
    if has_date_shape(s) && valid_ymd(four_digits(s, 0), two_digits(s, 5), two_digits(s, 8)) {
        Some(
            Date {
                year: four_digits(s, 0) as i32,
                month: two_digits(s, 5) as u32,
                day: two_digits(s, 8) as u32,
            },
        )
    } else {
        None
    }
}

/// `d` in the notation `YYYY-MM-DD`.
pub open spec fn format_date(d: Date) -> Seq<char> {
    seq![
        digit_char(d.year as int / 1000),
        digit_char(d.year as int / 100 % 10),
        digit_char(d.year as int / 10 % 10),
        digit_char(d.year as int % 10),
        '-',
        digit_char(d.month as int / 10),
        digit_char(d.month as int % 10),
        '-',
        digit_char(d.day as int / 10),
        digit_char(d.day as int % 10),
    ]
}

/// The character of a digit is read as that digit.
pub proof fn lemma_digit_char(n: int)
    requires
        0 <= n <= 9,
    ensures
        is_digit(digit_char(n)),
        digit_value(digit_char(n)) == n,
{
}

/// The four digits of a year put the year together again.
proof fn lemma_year_digits(y: int)
    requires
        0 <= y <= 9999,
    ensures
        0 <= y / 1000 <= 9,
        0 <= y / 100 % 10 <= 9,
        0 <= y / 10 % 10 <= 9,
        0 <= y % 10 <= 9,
        (y / 1000) * 1000 + (y / 100 % 10) * 100 + (y / 10 % 10) * 10 + y % 10 == y,
{
    let tens = y / 10;
    let hundreds = tens / 10;
    let thousands = hundreds / 10;
    assert(y == 10 * tens + y % 10);
    assert(tens == 10 * hundreds + tens % 10);
    assert(hundreds == 10 * thousands + hundreds % 10);
    assert(y / 100 == hundreds);
    assert(y / 1000 == thousands);
}

/// The two digits of a month or a day put it together again.
proof fn lemma_pair_digits(m: int)
    requires
        0 <= m <= 99,
    ensures
        0 <= m / 10 <= 9,
        0 <= m % 10 <= 9,
        (m / 10) * 10 + m % 10 == m,
{
}

/// Ten characters made of the digits given read as the numbers given.
proof fn lemma_read_digits(s: Seq<char>, a: int, b: int, c: int, e: int, f: int, g: int, h: int, i: int)
    requires
        s.len() == 10,
        0 <= a <= 9 && 0 <= b <= 9 && 0 <= c <= 9 && 0 <= e <= 9,
        0 <= f <= 9 && 0 <= g <= 9 && 0 <= h <= 9 && 0 <= i <= 9,
        s[0] == digit_char(a) && s[1] == digit_char(b) && s[2] == digit_char(c) && s[3]
            == digit_char(e),
        s[4] == '-' && s[7] == '-',
        s[5] == digit_char(f) && s[6] == digit_char(g),
        s[8] == digit_char(h) && s[9] == digit_char(i),
    ensures
        has_date_shape(s),
        four_digits(s, 0) == a * 1000 + b * 100 + c * 10 + e,
        two_digits(s, 5) == f * 10 + g,
        two_digits(s, 8) == h * 10 + i,
{
    lemma_digit_char(a);
    lemma_digit_char(b);
    lemma_digit_char(c);
    lemma_digit_char(e);
    lemma_digit_char(f);
    lemma_digit_char(g);
    lemma_digit_char(h);
    lemma_digit_char(i);
}

/// Reading back what `format_date` wrote gives the date again.
pub proof fn lemma_parse_of_format(d: Date)
    requires
        d.is_valid(),
    ensures
        format_date(d).len() == 10,
        has_date_shape(format_date(d)),
        parse_date(format_date(d)) == Some(d),
{
    let s = format_date(d);
    let y = d.year as int;
    let m = d.month as int;
    let n = d.day as int;
    lemma_year_digits(y);
    lemma_pair_digits(m);
    lemma_pair_digits(n);
    lemma_read_digits(s, y / 1000, y / 100 % 10, y / 10 % 10, y % 10, m / 10, m % 10, n / 10, n % 10);
}

/// Whether `a` comes before `b` in the calendar, read by year, then month, then day.
pub open spec fn precedes(a: Date, b: Date) -> bool {
    a.year < b.year || (a.year == b.year && (a.month < b.month || (a.month == b.month && a.day
        < b.day)))
}

/// A later year starts on a later day.
pub proof fn lemma_years_ascend(y1: int, y2: int)
    requires
        y1 < y2,
    ensures
        days_before_year(y1) + 365 <= days_before_year(y2),
        days_before_year(y1 + 1) <= days_before_year(y2),
        days_before_year(y1 + 1) == days_before_year(y1) + if is_leap_year(y1) {
            366int
        } else {
            365int
        },
{
}

/// Day numbers follow the calendar: the earlier date has the smaller number.
pub proof fn lemma_days_ascend(a: Date, b: Date)
    requires
        a.is_valid(),
        b.is_valid(),
        precedes(a, b),
    ensures
        a.days() < b.days(),
{
    if a.year < b.year {
        lemma_years_ascend(a.year as int, b.year as int);
    }
}

/// No two dates share a day number.
pub proof fn lemma_days_distinct(a: Date, b: Date)
    requires
        a.is_valid(),
        b.is_valid(),
        a.days() == b.days(),
    ensures
        a == b,
{
    if precedes(a, b) {
        lemma_days_ascend(a, b);
    } else if precedes(b, a) {
        lemma_days_ascend(b, a);
    }
}

/// The date whose day number is `n`.
pub open spec fn date_on(n: int) -> Date {
    choose|d: Date| d.is_valid() && d.days() == n
}

/// `date_on` undoes `days`.
pub proof fn lemma_date_on(d: Date)
    requires
        d.is_valid(),
    ensures
        date_on(d.days()) == d,
{
    let e = date_on(d.days());
    lemma_days_distinct(d, e);
}

/// The Gregorian date of the day numbered `n`, as year, month and day.
///
/// Calls chrono's `NaiveDate::from_num_days_from_ce_opt` and reads the result
/// with `Datelike::year`, `month` and `day`. chrono counts days as this module
/// does, with 1 January of the year 1 as day 1, so the contract claims that
/// the date returned is the one whose day number is `n`. Within the bounds
/// required chrono always has a date to return.
#[verifier::external_body]
fn civil_from_days(n: i32) -> (r: (i32, u32, u32))
    requires
        FIRST_DAY <= n <= LAST_DAY,
    ensures
        valid_ymd(r.0 as int, r.1 as int, r.2 as int),
        day_number_of(r.0 as int, r.1 as int, r.2 as int) == n,
{
    let d = NaiveDate::from_num_days_from_ce_opt(n).unwrap();
    (d.year(), d.month(), d.day())
}

fn is_leap(y: i32) -> (b: bool)
    requires
        0 <= y <= 10000,
    ensures
        b == is_leap_year(y as int),
{
    y % 4 == 0 && (y % 100 != 0 || y % 400 == 0)
}

fn month_length(y: i32, m: u32) -> (n: u32)
    requires
        0 <= y <= 10000,
    ensures
        n == days_in_month(y as int, m as int),
{
    if m == 2 {
        if is_leap(y) {
            29
        } else {
            28
        }
    } else if m == 4 || m == 6 || m == 9 || m == 11 {
        30
    } else {
        31
    }
}

/// The day number of day `d` of month `m` of year `y`; the year 10000 is
/// admitted so that the month after December 9999 can be named.
pub fn day_number_from_ymd(y: i32, m: u32, d: u32) -> (n: i32)
    requires
        0 <= y <= 10000,
        1 <= m <= 12,
        1 <= d <= 31,
    ensures
        n == day_number_of(y as int, m as int, d as int),
{
    let before_year: i32 = if y == 0 {
        -366
    } else {
        let p: i32 = y - 1;
        365 * p + p / 4 - p / 100 + p / 400
    };
    let leap: i32 = if m > 2 && is_leap(y) {
        1
    } else {
        0
    };
    let before_month: i32 = if m == 1 {
        0
    } else if m == 2 {
        31
    } else if m == 3 {
        59
    } else if m == 4 {
        90
    } else if m == 5 {
        120
    } else if m == 6 {
        151
    } else if m == 7 {
        181
    } else if m == 8 {
        212
    } else if m == 9 {
        243
    } else if m == 10 {
        273
    } else if m == 11 {
        304
    } else {
        334
    };
    before_year + leap + before_month + d as i32
}

fn digit_of(c: char) -> (n: u32)
    requires
        is_digit(c),
    ensures
        n == digit_value(c),
        n <= 9,
{
    c as u32 - '0' as u32
}

impl Date {
    /// Whether the fields name a date of the calendar.
    pub open spec fn is_valid(self) -> bool {
        valid_ymd(self.year as int, self.month as int, self.day as int)
    }

    /// The day number: 1 for 1 January of the year 1.
    pub open spec fn days(self) -> int {
        day_number_of(self.year as int, self.month as int, self.day as int)
    }

    /// The date of the given year, month and day, where there is one.
    pub fn from_ymd_opt(year: i32, month: u32, day: u32) -> (r: Option<Date>)
        ensures
            r is Some <==> valid_ymd(year as int, month as int, day as int),
            r matches Some(d) ==> d == (Date { year, month, day }) && d.is_valid(),
    {
        if 0 <= year && year <= 9999 && 1 <= month && month <= 12 && 1 <= day && day
            <= month_length(year, month) {
            Some(Date { year, month, day })
        } else {
            None
        }
    }

    /// The year.
    pub fn year(&self) -> (y: i32)
        ensures
            y == self.year,
    {
        self.year
    }

    /// The month, from 1 for January.
    pub fn month(&self) -> (m: u32)
        ensures
            m == self.month,
    {
        self.month
    }

    /// The day of the month, from 1.
    pub fn day(&self) -> (d: u32)
        ensures
            d == self.day,
    {
        self.day
    }

    /// The day number of this date.
    pub fn day_number(&self) -> (n: i32)
        requires
            self.is_valid(),
        ensures
            n == self.days(),
            FIRST_DAY <= n <= LAST_DAY,
    {
        day_number_from_ymd(self.year, self.month, self.day)
    }

    /// The date whose day number is `n`, where the calendar reaches that far.
    pub fn from_day_number(n: i32) -> (r: Option<Date>)
        ensures
            r is Some <==> FIRST_DAY <= n <= LAST_DAY,
            r matches Some(d) ==> d.is_valid() && d.days() == n && d == date_on(n as int),
    {
        if FIRST_DAY <= n && n <= LAST_DAY {
            let (year, month, day) = civil_from_days(n);
            proof {
                lemma_date_on(Date { year, month, day });
            }
            Some(Date { year, month, day })
        } else {
            None
        }
    }

    /// The date `k` days after this one (before it, for a negative `k`), where
    /// the calendar reaches that far.
    pub fn plus_days(&self, k: i32) -> (r: Option<Date>)
        requires
            self.is_valid(),
        ensures
            r is Some <==> FIRST_DAY <= self.days() + k <= LAST_DAY,
            r matches Some(d) ==> d.is_valid() && d.days() == self.days() + k && d == date_on(
                self.days() + k,
            ),
    {
        let n = self.day_number();
        match n.checked_add(k) {
            Some(m) => Date::from_day_number(m),
            None => None,
        }
    }

    /// The day of the week: 0 for Monday, up to 6 for Sunday.
    pub fn weekday(&self) -> (w: u32)
        requires
            self.is_valid(),
        ensures
            w == weekday_index(self.days()),
            w <= 6,
    {
        let n = self.day_number();
        ((n + 370) % 7) as u32
    }

    /// Whether this date is earlier than `other`.
    pub fn is_before(&self, other: &Date) -> (b: bool)
        requires
            self.is_valid(),
            other.is_valid(),
        ensures
            b == (self.days() < other.days()),
    {
        self.day_number() < other.day_number()
    }

    /// Reads the ten characters of `s` that start at `i` as `YYYY-MM-DD`.
    pub fn parse_at(s: &Vec<char>, i: usize) -> (r: Option<Date>)
        requires
            i + 10 <= s.len(),
        ensures
            r == parse_date(s@.subrange(i as int, i + 10)),
            r matches Some(d) ==> d.is_valid(),
    {
        let ghost t = s@.subrange(i as int, i + 10);
        if is_digit_char(s[i]) && is_digit_char(s[i + 1]) && is_digit_char(s[i + 2])
            && is_digit_char(s[i + 3]) && s[i + 4] == '-' && is_digit_char(s[i + 5])
            && is_digit_char(s[i + 6]) && s[i + 7] == '-' && is_digit_char(s[i + 8])
            && is_digit_char(s[i + 9]) {
            assert(has_date_shape(t));
            let year = digit_of(s[i]) * 1000 + digit_of(s[i + 1]) * 100 + digit_of(s[i + 2]) * 10
                + digit_of(s[i + 3]);
            let month = digit_of(s[i + 5]) * 10 + digit_of(s[i + 6]);
            let day = digit_of(s[i + 8]) * 10 + digit_of(s[i + 9]);
            assert(year == four_digits(t, 0));
            assert(month == two_digits(t, 5));
            assert(day == two_digits(t, 8));
            Date::from_ymd_opt(year as i32, month, day)
        } else {
            assert(!has_date_shape(t));
            None
        }
    }

    /// Reads `text` as a date in the notation `YYYY-MM-DD`: four digits, a
    /// hyphen, two digits, a hyphen, two digits, and nothing else.
    pub fn parse(text: &str) -> (r: Option<Date>)
        ensures
            r == parse_date(text@),
            r matches Some(d) ==> d.is_valid(),
    {
        let s = chars_of(text);
        if s.len() == 10 {
            assert(s@.subrange(0, 10) =~= s@);
            Date::parse_at(&s, 0)
        } else {
            None
        }
    }

    /// This date in the notation `YYYY-MM-DD`, as characters.
    pub fn to_chars(&self) -> (v: Vec<char>)
        requires
            self.is_valid(),
        ensures
            v@ == format_date(*self),
            v@.len() == 10,
    {
        let y = self.year as u32;
        let mut v: Vec<char> = Vec::new();
        v.push(char_of_digit(y / 1000));
        v.push(char_of_digit(y / 100 % 10));
        v.push(char_of_digit(y / 10 % 10));
        v.push(char_of_digit(y % 10));
        v.push('-');
        v.push(char_of_digit(self.month / 10));
        v.push(char_of_digit(self.month % 10));
        v.push('-');
        v.push(char_of_digit(self.day / 10));
        v.push(char_of_digit(self.day % 10));
        assert(v@ =~= format_date(*self));
        v
    }

    /// This date in the notation `YYYY-MM-DD`.
    pub fn to_string(&self) -> (s: String)
        requires
            self.is_valid(),
        ensures
            s@ == format_date(*self),
    {
        let v = self.to_chars();
        string_of(&v)
    }
}

} // verus!
