//! Times of the service day, counted in seconds from its midnight.

use vstd::prelude::*;
use vstd::string::*;
use crate::text::{padded_string, padded_text};

verus! {

pub const SECONDS_PER_MINUTE: u32 = 60;

pub const SECONDS_PER_HOUR: u32 = 3600;

pub const SECONDS_PER_DAY: u32 = 86400;

/// Seconds from midnight to the given hour, minute and second.
pub open spec fn seconds_of(hour: int, minute: int, second: int) -> int {
    hour * 3600 + minute * 60 + second
}

/// A time of day, to the second: from 00:00:00 to 23:59:59.
#[derive(Clone, Copy, Debug)]
pub struct TimeOfDay {
    seconds: u32,
}

impl TimeOfDay {
    /// A time of day lies within one day.
    #[verifier::type_invariant]
    pub closed spec fn within_day(self) -> bool {
        self.seconds < SECONDS_PER_DAY
    }

    /// Seconds since midnight.
    pub closed spec fn seconds(self) -> int {
        self.seconds as int
    }

    /// The time at the given hour, minute and second, where there is one:
    /// the hour is below 24, minute and second are below 60.
    pub fn from_hms(hour: u32, minute: u32, second: u32) -> (result: Option<Self>)
        ensures
            result is Some <==> hour < 24 && minute < 60 && second < 60,
            result matches Some(t) ==> t.within_day() && t.seconds() == seconds_of(
                hour as int,
                minute as int,
                second as int,
            ),
    {
        if hour < 24 && minute < 60 && second < 60 {
            Some(TimeOfDay { seconds: hour * 3600 + minute * 60 + second })
        } else {
            None
        }
    }

    /// Seconds since midnight.
    pub fn seconds_from_midnight(&self) -> (seconds: u32)
        ensures
            seconds == self.seconds(),
            seconds < SECONDS_PER_DAY,
    {
        proof {
            use_type_invariant(self);
        }
        self.seconds
    }

    /// The hour, from 0 to 23.
    pub fn hour(&self) -> (hour: u32)
        ensures
            hour == self.seconds() / 3600,
            hour < 24,
    {
        proof {
            use_type_invariant(self);
        }
        self.seconds / 3600
    }

    /// The minute of the hour, from 0 to 59.
    pub fn minute(&self) -> (minute: u32)
        ensures
            minute == self.seconds() / 60 % 60,
    {
        self.seconds / 60 % 60
    }

    /// The second of the minute, from 0 to 59.
    pub fn second(&self) -> (second: u32)
        ensures
            second == self.seconds() % 60,
    {
        self.seconds % 60
    }
}

/// A time on the service day's clock as `HH:MM:SS`, each part with at
/// least two digits. The clock does not turn over at midnight: one hour
/// after 23:30:00 it shows 24:30:00.
pub open spec fn clock_text(seconds: nat) -> Seq<char> {
    padded_text(seconds / 3600, 2) + seq![':'] + padded_text(seconds / 60 % 60, 2) + seq![':']
        + padded_text(seconds % 60, 2)
}

/// Writes a time on the service day's clock as `HH:MM:SS`.
pub fn clock_string(seconds: u128) -> (s: String)
    ensures
        s@ == clock_text(seconds as nat),
{
    let mut s = padded_string(seconds / 3600, 2);
    s.push(':');
    s.append(padded_string(seconds / 60 % 60, 2).as_str());
    s.push(':');
    s.append(padded_string(seconds % 60, 2).as_str());
    s
}

} // verus!
