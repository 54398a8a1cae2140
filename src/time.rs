//! Receipt timestamps of observed events.
use vstd::prelude::*;
use crate::text::string_from_chars;
use chrono::{Datelike, Timelike};

verus! {

/// A local calendar date and time of day, as the system clock gives it.
#[derive(Clone, Copy, Debug, PartialEq, Eq, Structural)]
pub struct LocalDateTime {
    pub year: i32,
    pub month: u32,
    pub day: u32,
    pub hour: u32,
    pub minute: u32,
    pub second: u32,
    /// Nanoseconds since the whole second; 1_000_000_000 and above mark a leap second.
    pub nanosecond: u32,
}

impl LocalDateTime {
    pub open spec fn wf(&self) -> bool {
        &&& 1 <= self.month <= 12
        &&& 1 <= self.day <= 31
        &&& self.hour < 24
        &&& self.minute < 60
        &&& self.second < 60
        &&& self.nanosecond < 2_000_000_000
    }
}

/// `a` is not later than `b`: the fields compared in order, year first.
pub open spec fn time_le(a: LocalDateTime, b: LocalDateTime) -> bool {
    if a.year != b.year {
        a.year < b.year
    } else if a.month != b.month {
        a.month < b.month
    } else if a.day != b.day {
        a.day < b.day
    } else if a.hour != b.hour {
        a.hour < b.hour
    } else if a.minute != b.minute {
        a.minute < b.minute
    } else if a.second != b.second {
        a.second < b.second
    } else {
        a.nanosecond <= b.nanosecond
    }
}

/// Whether `a` is not later than `b`.
pub fn time_le_exec(a: &LocalDateTime, b: &LocalDateTime) -> (r: bool)
    ensures
        r == time_le(*a, *b),
{
    if a.year != b.year {
        a.year < b.year
    } else if a.month != b.month {
        a.month < b.month
    } else if a.day != b.day {
        a.day < b.day
    } else if a.hour != b.hour {
        a.hour < b.hour
    } else if a.minute != b.minute {
        a.minute < b.minute
    } else if a.second != b.second {
        a.second < b.second
    } else {
        a.nanosecond <= b.nanosecond
    }
}

/// Relies on `chrono::Local::now`, read through `Datelike` and `Timelike`,
/// whose accessors document the ranges stated here.
#[verifier::external_body]
fn local_now() -> (r: LocalDateTime)
    ensures
        r.wf(),
{
    let now = chrono::Local::now().naive_local();
    LocalDateTime {
        year: now.year(),
        month: now.month(),
        day: now.day(),
        hour: now.hour(),
        minute: now.minute(),
        second: now.second(),
        nanosecond: now.nanosecond(),
    }
}

/// When an event was observed: unknown for deletions, else the local receipt time.
#[derive(Clone, Copy, Debug, PartialEq, Eq, Structural)]
pub enum Time {
    Unknown,
    Local(LocalDateTime),
}

pub open spec fn digit(n: u32) -> char
    recommends
        n < 10,
{
    ((n + 48) as u8) as char
}

/// Two digits, the first a space when it would be zero.
pub open spec fn two_space_padded(n: u32) -> Seq<char> {
    if n / 10 == 0 {
        seq![' ', digit(n % 10)]
    } else {
        seq![digit(n / 10), digit(n % 10)]
    }
}

pub open spec fn two_zero_padded(n: u32) -> Seq<char> {
    seq![digit(n / 10), digit(n % 10)]
}

pub open spec fn three_zero_padded(n: u32) -> Seq<char> {
    seq![digit(n / 100), digit((n / 10) % 10), digit(n % 10)]
}

/// `H:MM:SS.mmm` with a space-padded hour; a leap second shows as second 60.
pub open spec fn clock_text(t: LocalDateTime) -> Seq<char> {
    two_space_padded(t.hour) + seq![':'] + two_zero_padded(t.minute) + seq![':']
        + two_zero_padded((t.second + t.nanosecond / 1_000_000_000) as u32) + seq!['.']
        + three_zero_padded((t.nanosecond / 1_000_000) % 1000)
}

pub open spec fn time_text(t: Time) -> Seq<char> {
    match t {
        Time::Unknown => seq!['U', 'N', 'K', 'N', 'O', 'W', 'N'],
        Time::Local(d) => clock_text(d),
    }
}

fn digit_exec(n: u32) -> (c: char)
    requires
        n < 10,
    ensures
        c == digit(n),
{
    ((n + 48) as u8) as char
}

impl Time {
    /// The local time now.
    pub fn new_now() -> (r: Time)
        ensures
            r matches Time::Local(t) && t.wf(),
    {
        Time::Local(local_now())
    }

    pub fn as_optional(&self) -> (r: Option<&LocalDateTime>)
        ensures
            match *self {
                Time::Unknown => r is None,
                Time::Local(t) => r == Some(&t),
            },
    {
        match self {
            Time::Local(t) => Some(t),
            Time::Unknown => None,
        }
    }

    /// A fixed sample: 1996-12-19 16:39:57.
    pub fn datetime_example() -> (r: LocalDateTime)
        ensures
            r.wf(),
            r == (LocalDateTime {
                year: 1996,
                month: 12,
                day: 19,
                hour: 16,
                minute: 39,
                second: 57,
                nanosecond: 0,
            }),
    {
        LocalDateTime { year: 1996, month: 12, day: 19, hour: 16, minute: 39, second: 57, nanosecond: 0 }
    }

    /// The display text: `UNKNOWN`, or the time of day to the millisecond.
    pub fn to_string(&self) -> (r: String)
        requires
            self matches Time::Local(t) ==> t.wf(),
        ensures
            r@ == time_text(*self),
    {
        let mut out: Vec<char> = Vec::new();
        match self {
            Time::Unknown => {
                out.push('U');
                out.push('N');
                out.push('K');
                out.push('N');
                out.push('O');
                out.push('W');
                out.push('N');
            },
            Time::Local(t) => {
                if t.hour / 10 == 0 {
                    out.push(' ');
                } else {
                    out.push(digit_exec(t.hour / 10));
                }
                out.push(digit_exec(t.hour % 10));
                out.push(':');
                out.push(digit_exec(t.minute / 10));
                out.push(digit_exec(t.minute % 10));
                out.push(':');
                let s = t.second + t.nanosecond / 1_000_000_000;
                out.push(digit_exec(s / 10));
                out.push(digit_exec(s % 10));
                out.push('.');
                let ms = (t.nanosecond / 1_000_000) % 1000;
                out.push(digit_exec(ms / 100));
                out.push(digit_exec((ms / 10) % 10));
                out.push(digit_exec(ms % 10));
            },
        }
        let r = string_from_chars(&out);
        assert(r@ =~= time_text(*self));
        r
    }
}

} // verus!
