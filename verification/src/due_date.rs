//! Due dates: free-form text about a day, made into `DD.MM.YYYY`.

use vstd::prelude::*;
use chrono::format::{parse, Parsed, StrftimeItems};
use chrono::{Datelike, NaiveDate};
use crate::calendar::{day_of, day_of_triple, lemma_far_days_are_none, Date, Day};
use crate::numerals::{i64_reading, is_digit, read_i64, read_u32, u32_reading};
use crate::split::{is_whitespace, lemma_words_of_solid_text, split_words, words};
use crate::text::{
    chars_of,
    is_word,
    is_word_ignoring_case,
    spells_ignoring_case,
    views,
};

verus! {

/// What chrono's `NaiveDate::parse_from_str` makes of `text` under the format
/// `format`: year, month and day of the month of the date it reads, if it reads one.
pub uninterp spec fn date_reading(text: Seq<char>, format: Seq<char>) -> Option<(i32, u32, u32)>;

/// What chrono's `format::parse` makes of `text` under the format `format`: the day of
/// the month and the month that it reads, if it reads both.
pub uninterp spec fn day_and_month_reading(text: Seq<char>, format: Seq<char>) -> Option<
    (u32, u32),
>;

/// The day that `text` spells in full, as `DD.MM.YYYY`, if it spells one.
pub open spec fn spelled_day(text: Seq<char>) -> Option<Day> {
    if exists|d: Day| d.is_valid() && d.text() == text {
        Some(choose|d: Day| d.is_valid() && d.text() == text)
    } else {
        None
    }
}

/// What a reading of a text that spells a day in full has to be: that day under the
/// format with the year in four digits, and nothing under the format with the year
/// in two digits, for which the text is too long.
pub open spec fn reads_spelled_day(
    text: Seq<char>,
    format: Seq<char>,
    reading: Option<(i32, u32, u32)>,
) -> bool {
    spelled_day(text) matches Some(day) ==> {
        &&& format == "%d.%m.%Y"@ ==> reading is Some && day_of_triple(reading.unwrap()) == day
        &&& format == "%d.%m.%y"@ ==> reading is None
    }
}

/// Reads a date from `text` with chrono's `NaiveDate::parse_from_str`. The date that
/// comes back is a function of the text and the format; a text that spells a day as
/// `DD.MM.YYYY` is read as that day under `%d.%m.%Y` and not at all under `%d.%m.%y`.
#[verifier::external_body]
fn read_date(text: &str, format: &str) -> (r: Option<(i32, u32, u32)>)
    ensures
        r == date_reading(text@, format@),
        reads_spelled_day(text@, format@, r),
{
    let date = NaiveDate::parse_from_str(text, format).ok()?;
    Some((date.year(), date.month(), date.day()))
}

/// Reads a day of the month and a month from `text` with chrono's `format::parse`.
/// The pair that comes back is a function of the text and the format.
#[verifier::external_body]
fn read_day_and_month(text: &str, format: &str) -> (r: Option<(u32, u32)>)
    ensures
        r == day_and_month_reading(text@, format@),
{
    let mut parsed = Parsed::new();
    parse(&mut parsed, text, StrftimeItems::new(format)).ok()?;
    Some((parsed.day()?, parsed.month()?))
}

/// The number of days that the words `in <N> days` or `in <N> weeks` stand for.
pub open spec fn relative_days(parts: Seq<Seq<char>>) -> Option<int> {
    if parts.len() == 3 && parts[0] == "in"@ && i64_reading(parts[1]) is Some {
        if parts[2] == "days"@ {
            Some(i64_reading(parts[1]).unwrap() as int)
        } else if parts[2] == "weeks"@ {
            Some(7 * i64_reading(parts[1]).unwrap())
        } else {
            None
        }
    } else {
        None
    }
}

/// The number of the week that the words `week <N>` stand for.
pub open spec fn week_reference(parts: Seq<Seq<char>>) -> Option<u32> {
    if parts.len() == 2 && parts[0] == "week"@ {
        u32_reading(parts[1])
    } else {
        None
    }
}

/// The day on which the week `week` of `year` starts. The first week starts on the
/// Monday of the week of 1 January if that day is a Monday, Tuesday, Wednesday or
/// Thursday, and `7 - weekday` days after 1 January otherwise; every further week
/// starts seven days later.
pub open spec fn week_start(year: int, week: int) -> Option<Day> {
    let first = day_of(year, 1, 1);
    let weekday = first.weekday();
    let to_first_week = if weekday <= 4 {
        -(weekday - 1)
    } else {
        7 - weekday
    };
    first.plus_days(to_first_week + 7 * (week - 1))
}

/// The day that a reading of year, month and day names, if it is a valid one.
pub open spec fn day_read(reading: Option<(i32, u32, u32)>) -> Option<Day> {
    match reading {
        Some(triple) if day_of_triple(triple).is_valid() => Some(day_of_triple(triple)),
        _ => None,
    }
}

/// The day that `text` gives in full: the day that it spells as `DD.MM.YYYY`; else
/// what chrono reads with the year in two digits; else what it reads with the year
/// in up to four.
pub open spec fn absolute_day(text: Seq<char>) -> Option<Day> {
    if spelled_day(text) is Some {
        spelled_day(text)
    } else if day_read(date_reading(text, "%d.%m.%y"@)) is Some {
        day_read(date_reading(text, "%d.%m.%y"@))
    } else {
        day_read(date_reading(text, "%d.%m.%Y"@))
    }
}

/// The next day with the given day of the month and month: the one in the year of
/// `today` unless the calendar lacks it or it comes strictly before `today`, else the
/// one in the year after, if the calendar has that.
pub open spec fn next_occurrence(day: int, month: int, today: Day) -> Option<Day> {
    let this_year = day_of(today.year, month, day);
    let next_year = day_of(today.year + 1, month, day);
    if this_year.is_valid() && !this_year.is_before(today) {
        Some(this_year)
    } else if next_year.is_valid() {
        Some(next_year)
    } else {
        None
    }
}

/// The text of `day`, or `fallback` where there is no day.
pub open spec fn text_or(day: Option<Day>, fallback: Seq<char>) -> Seq<char> {
    match day {
        Some(d) => d.text(),
        None => fallback,
    }
}

/// The due date that `input` stands for on the day `today`, as `DD.MM.YYYY`. The
/// first of these that applies decides: the words `today`, `tomorrow` and `next
/// week` in any case of letters; `in <N> days` and `in <N> weeks`; `week <N>`; a day
/// given in full; a day of the month and a month. Where none applies, or where the
/// day meant lies outside the years 0 to 9999, the result is `input` itself.
pub open spec fn normalized_date(input: Seq<char>, today: Day) -> Seq<char> {
    let parts = words(input);
    if spells_ignoring_case(input, "today"@) {
        today.text()
    } else if spells_ignoring_case(input, "tomorrow"@) {
        text_or(today.plus_days(1), input)
    } else if spells_ignoring_case(input, "next week"@) {
        text_or(today.plus_days(7), input)
    } else if relative_days(parts) is Some {
        text_or(today.plus_days(relative_days(parts).unwrap()), input)
    } else if week_reference(parts) is Some {
        text_or(week_start(today.year, week_reference(parts).unwrap() as int), input)
    } else if absolute_day(input) is Some {
        absolute_day(input).unwrap().text()
    } else if day_and_month_reading(input, "%d.%m"@) is Some {
        let (day, month) = day_and_month_reading(input, "%d.%m"@).unwrap();
        text_or(next_occurrence(day as int, month as int, today), input)
    } else {
        input
    }
}

/// The text of `date`, or `fallback` where there is no date.
fn date_string_or(date: Option<Date>, fallback: String) -> (r: String)
    ensures
        r@ == match date {
            Some(d) => d@.text(),
            None => fallback@,
        },
{
    match date {
        Some(d) => d.text(),
        None => fallback,
    }
}

/// The date `count` times `unit` days after `today`.
fn shifted(today: &Date, count: i64, unit: i64) -> (r: Option<Date>)
    requires
        unit == 1 || unit == 7,
    ensures
        match r {
            Some(date) => today@.plus_days(count * unit) == Some(date@),
            None => today@.plus_days(count * unit) is None,
        },
{
    if count < -crate::calendar::LAST_DAY_NUMBER || count > crate::calendar::LAST_DAY_NUMBER {
        proof {
            use_type_invariant(today);
            lemma_far_days_are_none(today@, count * unit);
        }
        return None;
    }
    today.plus_days(count * unit)
}

/// Reads `in <N> days` or `in <N> weeks`: `N` and the number of days in the unit.
fn read_relative(parts: &Vec<Vec<char>>) -> (r: Option<(i64, i64)>)
    ensures
        match r {
            Some((count, unit)) => (unit == 1 || unit == 7) && relative_days(views(parts@))
                == Some(count * unit),
            None => relative_days(views(parts@)) is None,
        },
{
    if parts.len() != 3 || !is_word(&parts[0], "in") {
        return None;
    }
    match read_i64(&parts[1]) {
        Some(count) => {
            if is_word(&parts[2], "days") {
                Some((count, 1))
            } else if is_word(&parts[2], "weeks") {
                Some((count, 7))
            } else {
                None
            }
        },
        None => None,
    }
}

/// Reads `week <N>`: `N`.
fn read_week(parts: &Vec<Vec<char>>) -> (r: Option<u32>)
    ensures
        r == week_reference(views(parts@)),
{
    if parts.len() != 2 || !is_word(&parts[0], "week") {
        return None;
    }
    read_u32(&parts[1])
}

/// The date on which the week `week_number` of the year of `today` starts.
fn week_start_date(week_number: u32, today: &Date) -> (r: Option<Date>)
    ensures
        match r {
            Some(date) => week_start(today@.year, week_number as int) == Some(date@),
            None => week_start(today@.year, week_number as int) is None,
        },
{
    match Date::new(today.year(), 1, 1) {
        Some(first) => {
            let weekday: i64 = first.weekday() as i64;
            let to_first_week: i64 = if weekday <= 4 {
                -(weekday - 1)
            } else {
                7 - weekday
            };
            first.plus_days(to_first_week + 7 * (week_number as i64 - 1))
        },
        None => None,
    }
}

/// The start of the week `week_number` of the year of `today`, as `DD.MM.YYYY`;
/// nothing if that day lies outside the years 0 to 9999.
pub fn parse_week_number(week_number: u32, today: &Date) -> (r: Option<String>)
    ensures
        match r {
            Some(text) => week_start(today@.year, week_number as int) is Some && text@
                == week_start(today@.year, week_number as int).unwrap().text(),
            None => week_start(today@.year, week_number as int) is None,
        },
{
    match week_start_date(week_number, today) {
        Some(date) => Some(date.text()),
        None => None,
    }
}

/// The next date with the given day of the month and month, from `today` on.
pub fn find_next_possible_date(day: u32, month: u32, today: &Date) -> (r: Option<Date>)
    ensures
        match r {
            Some(date) => next_occurrence(day as int, month as int, today@) == Some(date@),
            None => next_occurrence(day as int, month as int, today@) is None,
        },
{
    let year = today.year();
    match Date::new(year, month, day) {
        Some(date) => {
            if !date.is_before(today) {
                return Some(date);
            }
        },
        None => {},
    }
    Date::new(year + 1, month, day)
}

/// The date that `text` gives in full.
fn read_absolute(text: &str) -> (r: Option<Date>)
    ensures
        match r {
            Some(date) => absolute_day(text@) == Some(date@),
            None => absolute_day(text@) is None,
        },
{
    let short = read_date(text, "%d.%m.%y");
    let short_date = match short {
        Some((y, m, d)) => Date::new(y, m, d),
        None => None,
    };
    if short_date.is_some() {
        return short_date;
    }
    match read_date(text, "%d.%m.%Y") {
        Some((y, m, d)) => Date::new(y, m, d),
        None => None,
    }
}

/// Makes a due date of `due_date_string`, on the day `today`.
pub fn parse_due_date(due_date_string: String, today: Date) -> (r: String)
    ensures
        r@ == normalized_date(due_date_string@, today@),
{
    let chars = chars_of(due_date_string.as_str());
    let parts = split_words(&chars);
    if is_word_ignoring_case(&chars, "today") {
        return today.text();
    }
    if is_word_ignoring_case(&chars, "tomorrow") {
        return date_string_or(today.plus_days(1), due_date_string);
    }
    if is_word_ignoring_case(&chars, "next week") {
        return date_string_or(today.plus_days(7), due_date_string);
    }
    if let Some((count, unit)) = read_relative(&parts) {
        return date_string_or(shifted(&today, count, unit), due_date_string);
    }
    if let Some(week_number) = read_week(&parts) {
        return date_string_or(week_start_date(week_number, &today), due_date_string);
    }
    if let Some(date) = read_absolute(due_date_string.as_str()) {
        return date.text();
    }
    if let Some((day, month)) = read_day_and_month(due_date_string.as_str(), "%d.%m") {
        return date_string_or(find_next_possible_date(day, month, &today), due_date_string);
    }
    due_date_string
}

/// The text of a valid day has ten characters, none of them whitespace.
pub proof fn lemma_text_is_solid(d: Day)
    requires
        d.is_valid(),
    ensures
        d.text().len() == 10,
        forall|i: int| 0 <= i < d.text().len() ==> !is_whitespace(#[trigger] d.text()[i]),
{
    let text = d.text();
    assert(text.len() == 10);
    assert forall|i: int| 0 <= i < text.len() implies !is_whitespace(#[trigger] text[i]) by {
        assert(text[i] == '.' || is_digit(text[i]));
    }
}

/// Two valid days with the same text are the same day.
pub proof fn lemma_text_identifies_day(a: Day, b: Day)
    requires
        a.is_valid(),
        b.is_valid(),
        a.text() == b.text(),
    ensures
        a == b,
{
    let s = a.text();
    let t = b.text();
    assert(s[0] == t[0] && s[1] == t[1] && s[3] == t[3] && s[4] == t[4]);
    assert(s[6] == t[6] && s[7] == t[7] && s[8] == t[8] && s[9] == t[9]);
    assert(a.day / 10 == b.day / 10 && a.day % 10 == b.day % 10);
    assert(a.month / 10 == b.month / 10 && a.month % 10 == b.month % 10);
    assert(a.year / 1000 == b.year / 1000 && a.year / 100 % 10 == b.year / 100 % 10);
    assert(a.year / 10 % 10 == b.year / 10 % 10 && a.year % 10 == b.year % 10);
}

/// The text of a valid day spells that day.
pub proof fn lemma_text_spells_day(d: Day)
    requires
        d.is_valid(),
    ensures
        spelled_day(d.text()) == Some(d),
{
    let found = choose|other: Day| other.is_valid() && other.text() == d.text();
    lemma_text_identifies_day(found, d);
}

/// A day given in full as `DD.MM.YYYY` is its own due date, whatever day it is
/// today.
pub proof fn lemma_day_in_full_is_kept(d: Day, today: Day)
    requires
        d.is_valid(),
    ensures
        normalized_date(d.text(), today) == d.text(),
{
    let text = d.text();
    lemma_text_is_solid(d);
    lemma_text_spells_day(d);
    lemma_words_of_solid_text(text);
    reveal_strlit("today");
    reveal_strlit("tomorrow");
    reveal_strlit("next week");
    assert(words(text).len() == 1);
    assert(absolute_day(text) == Some(d));
}

/// What `today`, `tomorrow` and `next week` become, in any case of letters, is no
/// longer changed when it is made a due date once more.
pub proof fn lemma_named_day_normalizes_once(input: Seq<char>, today: Day)
    requires
        today.is_valid(),
        spells_ignoring_case(input, "today"@) || spells_ignoring_case(input, "tomorrow"@)
            || spells_ignoring_case(input, "next week"@),
    ensures
        normalized_date(normalized_date(input, today), today) == normalized_date(input, today),
{
    let once = normalized_date(input, today);
    if spells_ignoring_case(input, "today"@) {
        lemma_day_in_full_is_kept(today, today);
    } else {
        let days: int = if spells_ignoring_case(input, "tomorrow"@) {
            1
        } else {
            7
        };
        assert(once == text_or(today.plus_days(days), input));
        match today.plus_days(days) {
            Some(d) => {
                lemma_day_in_full_is_kept(d, today);
            },
            None => {},
        }
    }
}

/// The next occurrence of a day of the month and a month is a day of the calendar
/// with that day of the month and that month, and never comes before today. It falls
/// in the year of today where the day of that year does not come before today, and
/// in the year after otherwise.
pub proof fn lemma_next_occurrence_is_soonest(day: int, month: int, today: Day)
    requires
        today.is_valid(),
    ensures
        ({
            let this_year = day_of(today.year, month, day);
            let in_time = this_year.is_valid() && !this_year.is_before(today);
            match next_occurrence(day, month, today) {
                Some(found) => found.is_valid() && found.day == day && found.month == month
                    && !found.is_before(today) && found.year == if in_time {
                    today.year
                } else {
                    today.year + 1
                },
                None => !in_time && !day_of(today.year + 1, month, day).is_valid(),
            }
        }),
{
}

/// The second of March, asked for as a day and a month: that of this year as long
/// as today is no later than it, that of next year afterwards.
pub proof fn lemma_second_of_march(today: Day)
    requires
        today.is_valid(),
        today.year < 9999,
    ensures
        next_occurrence(2, 3, today) == Some(
            day_of(
                if today.month > 3 || (today.month == 3 && today.day > 2) {
                    today.year + 1
                } else {
                    today.year
                },
                3,
                2,
            ),
        ),
{
}

} // verus!
