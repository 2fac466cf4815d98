//! Calendar days of the proleptic Gregorian calendar, years 0 to 9999: the days that
//! can be written as `DD.MM.YYYY`.

use vstd::prelude::*;
use chrono::{Datelike, NaiveDate, TimeDelta};
use crate::numerals::{four_digits, push_four_digits, push_two_digits, two_digits};
use crate::text::string_of;

verus! {

pub open spec fn is_leap_year(year: int) -> bool {
    year % 4 == 0 && (year % 100 != 0 || year % 400 == 0)
}

pub open spec fn days_in_year(year: int) -> int {
    if is_leap_year(year) {
        366
    } else {
        365
    }
}

pub open spec fn days_in_month(year: int, month: int) -> int {
    if month == 2 {
        if is_leap_year(year) {
            29
        } else {
            28
        }
    } else if month == 4 || month == 6 || month == 9 || month == 11 {
        30
    } else {
        31
    }
}

/// The number of days in the years 0 up to, but not including, `year`.
pub open spec fn days_before_year(year: int) -> int
    decreases year,
{
    if year <= 0 {
        0
    } else {
        days_before_year(year - 1) + days_in_year(year - 1)
    }
}

/// The number of days in the months of `year` before `month`.
pub open spec fn days_before_month(year: int, month: int) -> int
    decreases month,
{
    if month <= 1 {
        0
    } else {
        days_before_month(year, month - 1) + days_in_month(year, month - 1)
    }
}

/// The last year that four digits can write.
pub const LAST_YEAR: i32 = 9999;

/// The number of 31 December 9999, the last day.
pub const LAST_DAY_NUMBER: i64 = 3652424;

/// A day as year, month and day of the month: the mathematical value of a [`Date`].
pub struct Day {
    pub year: int,
    pub month: int,
    pub day: int,
}

impl Day {
    /// Whether the calendar has this day, in a year from 0 to 9999.
    pub open spec fn is_valid(self) -> bool {
        &&& 0 <= self.year <= LAST_YEAR
        &&& 1 <= self.month <= 12
        &&& 1 <= self.day <= days_in_month(self.year, self.month)
    }

    /// How many days after 1 January of the year 0 this day comes.
    pub open spec fn number(self) -> int {
        days_before_year(self.year) + days_before_month(self.year, self.month) + self.day - 1
    }

    /// Whether this day comes strictly before `other`.
    pub open spec fn is_before(self, other: Day) -> bool {
        ||| self.year < other.year
        ||| self.year == other.year && self.month < other.month
        ||| self.year == other.year && self.month == other.month && self.day < other.day
    }

    /// The day of the week, from 1 for Monday to 7 for Sunday. 1 January of the year
    /// 0, the day with the number 0, is a Saturday.
    pub open spec fn weekday(self) -> int {
        (self.number() + 5) % 7 + 1
    }

    /// The day that comes `days` days after this one (before it, if `days` is
    /// negative), if it lies in the years 0 to 9999.
    pub open spec fn plus_days(self, days: int) -> Option<Day> {
        day_numbered(self.number() + days)
    }

    /// The day written as `DD.MM.YYYY`.
    pub open spec fn text(self) -> Seq<char> {
        two_digits(self.day) + seq!['.'] + two_digits(self.month) + seq!['.'] + four_digits(
            self.year,
        )
    }

    /// The day written as `YY-MM-DD`, with the last two digits of the year.
    pub open spec fn short_text(self) -> Seq<char> {
        two_digits(self.year % 100) + seq!['-'] + two_digits(self.month) + seq!['-']
            + two_digits(self.day)
    }
}

pub open spec fn day_of(year: int, month: int, day: int) -> Day {
    Day { year, month, day }
}

/// The day that a year, a month and a day of the month name.
pub open spec fn day_of_triple(t: (i32, u32, u32)) -> Day {
    day_of(t.0 as int, t.1 as int, t.2 as int)
}

/// The valid day with the given number, if there is one.
pub open spec fn day_numbered(number: int) -> Option<Day> {
    if exists|d: Day| d.is_valid() && d.number() == number {
        Some(choose|d: Day| d.is_valid() && d.number() == number)
    } else {
        None
    }
}

/// The days before a year, in closed form.
pub proof fn lemma_days_before_year(year: int)
    requires
        0 <= year,
    ensures
        days_before_year(year) == 365 * year + (year + 3) / 4 - (year + 99) / 100 + (year + 399)
            / 400,
    decreases year,
{
    if year > 0 {
        lemma_days_before_year(year - 1);
    }
}

/// The days before a month, month by month.
pub proof fn lemma_days_before_month(year: int, month: int)
    requires
        1 <= month <= 13,
    ensures
        days_before_month(year, month) == (if month == 1 {
            0int
        } else if month == 2 {
            31
        } else if month == 3 {
            59
        } else if month == 4 {
            90
        } else if month == 5 {
            120
        } else if month == 6 {
            151
        } else if month == 7 {
            181
        } else if month == 8 {
            212
        } else if month == 9 {
            243
        } else if month == 10 {
            273
        } else if month == 11 {
            304
        } else if month == 12 {
            334
        } else {
            365
        }) + (if month > 2 && is_leap_year(year) {
            1int
        } else {
            0
        }),
    decreases month,
{
    if month > 1 {
        lemma_days_before_month(year, month - 1);
    }
}

/// Later years have more days before them.
pub proof fn lemma_days_before_year_grows(earlier: int, later: int)
    requires
        0 <= earlier <= later,
    ensures
        days_before_year(earlier) <= days_before_year(later),
    decreases later - earlier,
{
    if earlier < later {
        lemma_days_before_year_grows(earlier, later - 1);
    }
}

/// A day that comes before another has the smaller number.
pub proof fn lemma_number_respects_order(a: Day, b: Day)
    requires
        a.is_valid(),
        b.is_valid(),
        a.is_before(b),
    ensures
        a.number() < b.number(),
{
    lemma_days_before_month(a.year, a.month);
    lemma_days_before_month(b.year, b.month);
    if a.year < b.year {
        lemma_days_before_year_grows(a.year + 1, b.year);
    }
}

/// No two valid days share a number.
pub proof fn lemma_number_identifies_day(a: Day, b: Day)
    requires
        a.is_valid(),
        b.is_valid(),
        a.number() == b.number(),
    ensures
        a == b,
{
    if a.is_before(b) {
        lemma_number_respects_order(a, b);
    } else if b.is_before(a) {
        lemma_number_respects_order(b, a);
    }
}

/// The numbers of the valid days run from 0 to [`LAST_DAY_NUMBER`].
pub proof fn lemma_number_bounds(d: Day)
    requires
        d.is_valid(),
    ensures
        0 <= d.number() <= LAST_DAY_NUMBER,
{
    lemma_days_before_month(d.year, d.month);
    lemma_days_before_year_grows(0, d.year);
    lemma_days_before_year_grows(d.year + 1, 10000);
    lemma_days_before_year(10000);
}

/// No valid day lies further from another than the calendar is long.
pub proof fn lemma_far_days_are_none(start: Day, days: int)
    requires
        start.is_valid(),
        days < -LAST_DAY_NUMBER || days > LAST_DAY_NUMBER,
    ensures
        start.plus_days(days) is None,
{
    lemma_number_bounds(start);
    assert forall|d: Day| d.is_valid() implies d.number() != start.number() + days by {
        lemma_number_bounds(d);
    }
}

/// A valid day with the right number is the day that `plus_days` names.
pub proof fn lemma_plus_days_is(start: Day, days: int, end: Day)
    requires
        end.is_valid(),
        end.number() == start.number() + days,
    ensures
        start.plus_days(days) == Some(end),
{
    let found = choose|d: Day| d.is_valid() && d.number() == start.number() + days;
    lemma_number_identifies_day(found, end);
}


/// A calendar day in the years 0 to 9999.
#[derive(Clone, Copy, Debug, PartialEq, Eq, Structural)]
pub struct Date {
    year: i32,
    month: u32,
    day: u32,
}

impl View for Date {
    type V = Day;

    closed spec fn view(&self) -> Day {
        day_of(self.year as int, self.month as int, self.day as int)
    }
}

/// The day that chrono finds `days` days after a day, by
/// `NaiveDate::checked_add_signed`, as year, month and day of the month.
/// For a start and an end in the years 0 to 9999 there is such a day; it is a day of
/// the calendar, and its number is the start's number plus `days`.
#[verifier::external_body]
fn shifted_day(year: i32, month: u32, day: u32, days: i64) -> (r: Option<(i32, u32, u32)>)
    requires
        day_of(year as int, month as int, day as int).is_valid(),
        0 <= day_of(year as int, month as int, day as int).number() + days <= LAST_DAY_NUMBER,
    ensures
        r is Some,
        day_of_triple(r.unwrap()).is_valid(),
        day_of_triple(r.unwrap()).number() == day_of(
            year as int,
            month as int,
            day as int,
        ).number() + days,
{
    let start = NaiveDate::from_ymd_opt(year, month, day)?;
    let end = start.checked_add_signed(TimeDelta::try_days(days)?)?;
    Some((end.year(), end.month(), end.day()))
}

/// The length of a month.
pub fn month_length(year: u32, month: u32) -> (r: u32)
    ensures
        r == days_in_month(year as int, month as int),
{
    if month == 2 {
        if year % 4 == 0 && (year % 100 != 0 || year % 400 == 0) {
            29
        } else {
            28
        }
    } else if month == 4 || month == 6 || month == 9 || month == 11 {
        30
    } else {
        31
    }
}

impl Date {
    #[verifier::type_invariant]
    pub open spec fn is_valid(self) -> bool {
        self@.is_valid()
    }

    /// The date of the given day, if the calendar has it in the years 0 to 9999.
    pub fn new(year: i32, month: u32, day: u32) -> (r: Option<Date>)
        ensures
            match r {
                Some(date) => date@ == day_of(year as int, month as int, day as int)
                    && date@.is_valid(),
                None => !day_of(year as int, month as int, day as int).is_valid(),
            },
    {
        if 0 <= year && year <= LAST_YEAR && 1 <= month && month <= 12 && 1 <= day && day
            <= month_length(year as u32, month) {
            Some(Date { year, month, day })
        } else {
            None
        }
    }

    pub fn year(&self) -> (r: i32)
        ensures
            r == self@.year,
            self@.is_valid(),
    {
        proof {
            use_type_invariant(self);
        }
        self.year
    }

    pub fn month(&self) -> (r: u32)
        ensures
            r == self@.month,
            self@.is_valid(),
    {
        proof {
            use_type_invariant(self);
        }
        self.month
    }

    pub fn day(&self) -> (r: u32)
        ensures
            r == self@.day,
            self@.is_valid(),
    {
        proof {
            use_type_invariant(self);
        }
        self.day
    }

    /// How many days after 1 January of the year 0 this date comes.
    pub fn number(&self) -> (r: i64)
        ensures
            r == self@.number(),
            0 <= r <= LAST_DAY_NUMBER,
    {
        proof {
            use_type_invariant(self);
            lemma_days_before_year(self.year as int);
            lemma_number_bounds(self@);
        }
        let y: i64 = self.year as i64;
        let mut before: i64 = 365 * y + (y + 3) / 4 - (y + 99) / 100 + (y + 399) / 400;
        let mut m: u32 = 1;
        while m < self.month
            invariant
                1 <= m <= self.month <= 12,
                0 <= self.year <= LAST_YEAR,
                before == days_before_year(self.year as int) + days_before_month(
                    self.year as int,
                    m as int,
                ),
                0 <= before <= 3652425 + 31 * m,
            decreases self.month - m,
        {
            before = before + month_length(self.year as u32, m) as i64;
            m += 1;
        }
        before + self.day as i64 - 1
    }

    /// The day of the week, from 1 for Monday to 7 for Sunday.
    pub fn weekday(&self) -> (r: u32)
        ensures
            r == self@.weekday(),
            1 <= r <= 7,
    {
        ((self.number() + 5) % 7 + 1) as u32
    }

    /// Whether this date comes strictly before `other`.
    pub fn is_before(&self, other: &Date) -> (r: bool)
        ensures
            r == self@.is_before(other@),
    {
        self.year < other.year || (self.year == other.year && (self.month < other.month || (
        self.month == other.month && self.day < other.day)))
    }

    /// The date `days` days after this one (before it, if `days` is negative), if it
    /// lies in the years 0 to 9999.
    pub fn plus_days(&self, days: i64) -> (r: Option<Date>)
        ensures
            match r {
                Some(date) => self@.plus_days(days as int) == Some(date@) && date@.is_valid(),
                None => self@.plus_days(days as int) is None,
            },
    {
        let here = self.number();
        proof {
            use_type_invariant(self);
            assert forall|d: Day| d.is_valid() implies 0 <= #[trigger] d.number()
                <= LAST_DAY_NUMBER by {
                lemma_number_bounds(d);
            }
        }
        if days < -LAST_DAY_NUMBER || days > LAST_DAY_NUMBER {
            return None;
        }
        let target = here + days;
        if target < 0 || target > LAST_DAY_NUMBER {
            return None;
        }
        match shifted_day(self.year, self.month, self.day, days) {
            Some((y, m, d)) => {
                proof {
                    lemma_plus_days_is(self@, days as int, day_of_triple((y, m, d)));
                }
                Date::new(y, m, d)
            },
            None => None,
        }
    }

    /// Appends the date, written as `DD.MM.YYYY`, to `out`.
    pub fn write_text(&self, out: &mut Vec<char>)
        ensures
            final(out)@ == old(out)@ + self@.text(),
    {
        proof {
            use_type_invariant(self);
        }
        push_two_digits(out, self.day);
        out.push('.');
        push_two_digits(out, self.month);
        out.push('.');
        push_four_digits(out, self.year as u32);
    }

    /// The date written as `DD.MM.YYYY`.
    pub fn text(&self) -> (r: String)
        ensures
            r@ == self@.text(),
    {
        let mut out: Vec<char> = Vec::new();
        self.write_text(&mut out);
        string_of(&out)
    }

    /// Appends the date, written as `YY-MM-DD`, to `out`.
    pub fn write_short_text(&self, out: &mut Vec<char>)
        ensures
            final(out)@ == old(out)@ + self@.short_text(),
    {
        proof {
            use_type_invariant(self);
        }
        push_two_digits(out, (self.year % 100) as u32);
        out.push('-');
        push_two_digits(out, self.month);
        out.push('-');
        push_two_digits(out, self.day);
    }
}

} // verus!
