//! Clock and calendar value types.
//!
//! A `Time` is a wall-clock instant within a day, a `Date` an opaque calendar
//! key. Both validate their fields on construction; `ParseError` carries the
//! reasons construction or label parsing can fail.

use vstd::prelude::*;

verus! {

/// A wall-clock time. A validated value holds `hour <= 23` and `minute <= 59`;
/// `Time::add` may produce an hour of 24 or more, which reads as "so many
/// hours past midnight of the starting day" — no day carry is applied.
#[derive(Debug, PartialEq, Eq, Structural, Clone, Copy, PartialOrd, Ord)]
pub struct Time {
    pub hour: u8,
    pub minute: u8,
}

/// A calendar date, used only as an equatable key. The day bound is a flat
/// 31 for every month: the model is deliberately not calendar-aware.
#[derive(Debug, PartialEq, Eq, Structural, Clone, Copy, Hash)]
pub struct Date {
    pub year: i32,
    pub month: u8,
    pub day: u8,
}

/// Why a room label or a clock/calendar value was rejected.
#[derive(Debug, PartialEq, Eq, Structural, Clone, Copy)]
pub enum ParseError {
    /// The label does not contain the expected room pattern.
    NameDoesNotMatch,
    /// The captured room number cannot be represented.
    NoNumber,
    /// The captured person capacity cannot be represented.
    NoCapacity,
    /// A month or day field was out of range.
    InvalidDate,
    /// An hour or minute field was out of range.
    InvalidTime,
}

impl Time {
    /// The instant as minutes since midnight.
    pub open spec fn spec_minutes(self) -> int {
        self.hour * 60 + self.minute
    }

    /// A validated time: both fields within their clock ranges.
    pub open spec fn valid(self) -> bool {
        self.hour <= 23 && self.minute <= 59
    }

    /// Builds a time, rejecting an hour above 23 or a minute above 59.
    pub fn new(hour: u8, minute: u8) -> (r: Result<Time, ParseError>)
        ensures
            hour <= 23 && minute <= 59 <==> r is Ok,
            r is Ok ==> r == Ok::<Time, ParseError>(Time { hour, minute }),
            r is Err ==> r == Err::<Time, ParseError>(ParseError::InvalidTime),
    {
        if hour > 23 {
            Err(ParseError::InvalidTime)
        } else if minute > 59 {
            Err(ParseError::InvalidTime)
        } else {
            Ok(Time { hour, minute })
        }
    }

    /// Adds two times: minutes carry into hours, hours accumulate without
    /// wrapping, so the sum of two validated times may read 24:00 or later.
    pub fn add(&self, other: &Time) -> (r: Time)
        requires
            self.minute + other.minute <= 255,
            self.hour + other.hour + (self.minute + other.minute) / 60 <= 255,
        ensures
            r == spec_time_add(*self, *other),
            r.spec_minutes() == self.spec_minutes() + other.spec_minutes(),
            self.minute <= 59 && other.minute <= 59 ==> r.minute <= 59,
    {
        let mut t = Time { hour: self.hour, minute: self.minute };
        t.minute = t.minute + other.minute;
        t.hour = t.hour + t.minute / 60;
        t.minute = t.minute % 60;
        t.hour = t.hour + other.hour;
        proof {
            vstd::arithmetic::div_mod::lemma_fundamental_div_mod(
                self.minute + other.minute,
                60,
            );
        }
        t
    }

    /// The instant as minutes since midnight.
    pub fn as_minutes(&self) -> (r: u32)
        ensures
            r == self.spec_minutes(),
    {
        (self.hour as u32) * 60 + (self.minute as u32)
    }
}

/// What `Time::add` returns: the minute fields are summed with their carry
/// folded into the hour fields, which are summed without any wrap.
pub open spec fn spec_time_add(a: Time, b: Time) -> Time {
    Time {
        hour: (a.hour + b.hour + (a.minute + b.minute) / 60) as u8,
        minute: ((a.minute + b.minute) % 60) as u8,
    }
}

/// Law: a validated time built from `hour` and `minute` reads back as exactly
/// `hour * 60 + minute` minutes since midnight.
pub proof fn lemma_time_new_minutes(hour: u8, minute: u8)
    requires
        hour <= 23,
        minute <= 59,
    ensures
        (Time { hour, minute }).spec_minutes() == hour * 60 + minute,
{
}

/// Law: time addition is commutative.
pub proof fn lemma_time_add_commutative(a: Time, b: Time)
    ensures
        spec_time_add(a, b) == spec_time_add(b, a),
{
}

impl Date {
    /// A validated date: month and day within their flat bounds.
    pub open spec fn valid(self) -> bool {
        1 <= self.month <= 12 && 1 <= self.day <= 31
    }

    /// Builds a date, rejecting a month outside [1, 12] or a day outside
    /// [1, 31]. The day bound ignores the month on purpose.
    pub fn new(year: i32, month: u8, day: u8) -> (r: Result<Date, ParseError>)
        ensures
            1 <= month <= 12 && 1 <= day <= 31 <==> r is Ok,
            r is Ok ==> r == Ok::<Date, ParseError>(Date { year, month, day }),
            r is Err ==> r == Err::<Date, ParseError>(ParseError::InvalidDate),
    {
        if 1 > month || month > 12 {
            Err(ParseError::InvalidDate)
        } else if 1 > day || day > 31 {
            Err(ParseError::InvalidDate)
        } else {
            Ok(Date { year, month, day })
        }
    }
}

} // verus!
