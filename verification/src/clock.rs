//! Times of day, to the minute. A time's mathematical value is its minute of the day,
//! from 0 for midnight to 1439.

use vstd::prelude::*;
use crate::numerals::{push_two_digits, two_digits};
use crate::text::string_of;

verus! {

/// The minute of the day that comes `minutes` minutes after the minute `start`,
/// whatever day that falls on.
pub open spec fn later_by(start: int, minutes: int) -> int {
    (start + minutes) % 1440
}

/// A minute of the day written as `HH:MM`, on the 24-hour clock.
pub open spec fn time_text(minute_of_day: int) -> Seq<char> {
    two_digits(minute_of_day / 60) + seq![':'] + two_digits(minute_of_day % 60)
}

/// A time of day on the 24-hour clock.
#[derive(Clone, Copy, Debug, PartialEq, Eq, Structural)]
pub struct Time {
    hour: u32,
    minute: u32,
}

impl View for Time {
    type V = int;

    closed spec fn view(&self) -> int {
        self.hour * 60 + self.minute
    }
}

/// `n` modulo 1440, from 0 to 1439.
fn minute_of_day(n: i64) -> (r: i64)
    ensures
        r == n as int % 1440,
        0 <= r < 1440,
{
    if n >= 0 {
        n % 1440
    } else {
        let below: i64 = -(n + 1);
        1439 - below % 1440
    }
}

/// `n` modulo 24, from 0 to 23.
fn hour_of_day(n: i64) -> (r: i64)
    ensures
        r == n as int % 24,
        0 <= r < 24,
{
    if n >= 0 {
        n % 24
    } else {
        let below: i64 = -(n + 1);
        23 - below % 24
    }
}

/// Whole days later it is the same time of day.
proof fn lemma_whole_days_vanish(start: int, days: int)
    ensures
        (start + 1440 * days) % 1440 == start % 1440,
{
}

impl Time {
    #[verifier::type_invariant]
    pub closed spec fn is_valid(self) -> bool {
        self.hour < 24 && self.minute < 60
    }

    /// The time `hour:minute`, if the clock has it.
    pub fn new(hour: u32, minute: u32) -> (r: Option<Time>)
        ensures
            match r {
                Some(time) => hour < 24 && minute < 60 && time@ == hour * 60 + minute,
                None => !(hour < 24 && minute < 60),
            },
    {
        if hour < 24 && minute < 60 {
            Some(Time { hour, minute })
        } else {
            None
        }
    }

    pub fn hour(&self) -> (r: u32)
        ensures
            r == self@ / 60,
            r < 24,
    {
        proof {
            use_type_invariant(self);
        }
        self.hour
    }

    pub fn minute(&self) -> (r: u32)
        ensures
            r == self@ % 60,
            r < 60,
    {
        proof {
            use_type_invariant(self);
        }
        self.minute
    }

    /// The time `minutes` minutes later (earlier, if `minutes` is negative).
    pub fn plus_minutes(&self, minutes: i64) -> (r: Time)
        ensures
            r@ == later_by(self@, minutes as int),
    {
        proof {
            use_type_invariant(self);
        }
        let shift = minute_of_day(minutes);
        let total = (self.hour as i64 * 60 + self.minute as i64 + shift) % 1440;
        proof {
            lemma_whole_days_vanish(self@ + shift, minutes as int / 1440);
        }
        Time { hour: (total / 60) as u32, minute: (total % 60) as u32 }
    }

    /// The time `hours` hours later (earlier, if `hours` is negative).
    pub fn plus_hours(&self, hours: i64) -> (r: Time)
        ensures
            r@ == later_by(self@, 60 * hours),
    {
        proof {
            use_type_invariant(self);
        }
        let shift = hour_of_day(hours) * 60;
        let total = (self.hour as i64 * 60 + self.minute as i64 + shift) % 1440;
        proof {
            assert(hours == 24 * (hours as int / 24) + shift / 60);
            lemma_whole_days_vanish(self@ + shift, hours as int / 24);
        }
        Time { hour: (total / 60) as u32, minute: (total % 60) as u32 }
    }

    /// The time written as `HH:MM`.
    pub fn text(&self) -> (r: String)
        ensures
            r@ == time_text(self@),
    {
        let mut out: Vec<char> = Vec::new();
        self.write_text(&mut out);
        string_of(&out)
    }

    /// Appends the time, written as `HH:MM`, to `out`.
    pub fn write_text(&self, out: &mut Vec<char>)
        ensures
            final(out)@ == old(out)@ + time_text(self@),
    {
        proof {
            use_type_invariant(self);
        }
        push_two_digits(out, self.hour);
        out.push(':');
        push_two_digits(out, self.minute);
    }
}

} // verus!
