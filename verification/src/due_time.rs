//! Due times: free-form text about a time of day, made into `HH:MM`.

use vstd::prelude::*;
use regex::Regex;
use crate::clock::{later_by, time_text, Time};
use crate::numerals::{i64_reading, push_two_digits, read_i64, read_u32, two_digits, u32_reading};
use crate::split::{split_words, words};
use crate::text::{chars_of, contains_char, has_prefix, starts_with, string_of, views};

verus! {

/// What a due time has to begin with: up to four digits, which a colon and two digits
/// may follow; or `in`, a number and a unit of hours or minutes; or `in` and a number.
/// No digit may follow it.
pub const TIME_PATTERN: &'static str =
    "^(?P<time>\\d{1,4}(?::\\d{2})?|in \\d+ (hours?|minutes?|min)|in \\d+)\\D*$";

/// The name of the group of [`TIME_PATTERN`] that holds the time.
pub const TIME_GROUP: &'static str = "time";

/// What the regex crate's `Regex::captures` finds in `text` for the group `group` of
/// the pattern `pattern`: the text that the group matched, if the pattern compiles
/// and matches and the group took part.
pub uninterp spec fn captured_text(
    pattern: Seq<char>,
    group: Seq<char>,
    text: Seq<char>,
) -> Option<Seq<char>>;

/// The text that the named group of a pattern matches in `text`, by the regex crate's
/// `Regex::new`, `Regex::captures` and `Captures::name`. What comes back is a
/// function of the three arguments.
#[verifier::external_body]
fn capture(pattern: &str, group: &str, text: &str) -> (r: Option<String>)
    ensures
        r is Some == captured_text(pattern@, group@, text@) is Some,
        r is Some ==> r.unwrap()@ == captured_text(pattern@, group@, text@).unwrap(),
{
    let matcher = Regex::new(pattern).ok()?;
    let found = matcher.captures(text)?;
    Some(found.name(group)?.as_str().to_string())
}

/// The time that `token` stands for at the minute `now` of the day, as `HH:MM`:
/// a number below 24 is an hour; a number below 2400 is hours and minutes in one;
/// `in <N>`, with or without a unit that begins with `hour`, is `N` hours from now,
/// and with a unit that begins with `min`, `N` minutes from now; any other token that
/// holds a colon stands for itself. Where none of these applies the result is
/// `input`.
pub open spec fn interpreted_time(token: Seq<char>, input: Seq<char>, now: int) -> Seq<char> {
    let parts = words(token);
    if u32_reading(token) is Some {
        let n = u32_reading(token).unwrap() as int;
        if n < 24 {
            two_digits(n) + seq![':', '0', '0']
        } else if n < 2400 {
            two_digits(n / 100) + seq![':'] + two_digits(n % 100)
        } else {
            input
        }
    } else if has_prefix(token, "in "@) {
        if parts.len() >= 2 && i64_reading(parts[1]) is Some {
            let n = i64_reading(parts[1]).unwrap() as int;
            if parts.len() == 3 && has_prefix(parts[2], "hour"@) {
                time_text(later_by(now, 60 * n))
            } else if parts.len() == 3 && has_prefix(parts[2], "min"@) {
                time_text(later_by(now, n))
            } else if parts.len() == 2 {
                time_text(later_by(now, 60 * n))
            } else {
                input
            }
        } else {
            input
        }
    } else if token.contains(':') {
        token
    } else {
        input
    }
}

/// The due time that `input` stands for at the minute `now` of the day: what its
/// leading token stands for, the token being what [`TIME_PATTERN`] captures. Where the
/// pattern does not match, the result is `input` itself.
pub open spec fn normalized_time(input: Seq<char>, now: int) -> Seq<char> {
    match captured_text(TIME_PATTERN@, TIME_GROUP@, input) {
        Some(token) => interpreted_time(token, input, now),
        None => input,
    }
}

/// Makes a due time of the token `token`, which was found at the start of `input`,
/// at the time `now`.
pub fn interpret_time_token(token: &str, input: String, now: Time) -> (r: String)
    ensures
        r@ == interpreted_time(token@, input@, now@),
{
    let chars = chars_of(token);
    match read_u32(&chars) {
        Some(n) => {
            if n < 24 {
                let mut out: Vec<char> = Vec::new();
                push_two_digits(&mut out, n);
                out.push(':');
                out.push('0');
                out.push('0');
                assert(out@ == two_digits(n as int) + seq![':', '0', '0']);
                return string_of(&out);
            } else if n < 2400 {
                let mut out: Vec<char> = Vec::new();
                push_two_digits(&mut out, n / 100);
                out.push(':');
                push_two_digits(&mut out, n % 100);
                return string_of(&out);
            }
            input
        },
        None => {
            if starts_with(&chars, &chars_of("in ")) {
                let parts = split_words(&chars);
                if parts.len() >= 2 {
                    if let Some(n) = read_i64(&parts[1]) {
                        if parts.len() == 3 && starts_with(&parts[2], &chars_of("hour")) {
                            return now.plus_hours(n).text();
                        } else if parts.len() == 3 && starts_with(&parts[2], &chars_of("min")) {
                            return now.plus_minutes(n).text();
                        } else if parts.len() == 2 {
                            return now.plus_hours(n).text();
                        }
                    }
                }
                input
            } else if contains_char(&chars, ':') {
                string_of(&chars)
            } else {
                input
            }
        },
    }
}

/// Makes a due time of `due_time_string`, at the time `now`.
pub fn parse_due_time(due_time_string: String, now: Time) -> (r: String)
    ensures
        r@ == normalized_time(due_time_string@, now@),
{
    match capture(TIME_PATTERN, TIME_GROUP, due_time_string.as_str()) {
        Some(token) => interpret_time_token(token.as_str(), due_time_string, now),
        None => due_time_string,
    }
}

} // verus!
