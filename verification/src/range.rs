//! Half-open time intervals and the raw slot timestamp they are read from.

use vstd::prelude::*;

use crate::digits::dec_val;
use crate::digits::is_digit;
use crate::digits::lemma_dec_val_bound;
use crate::digits::lemma_dec_val_nonneg;
use crate::digits::parse_fixed_digits;
use crate::time::Date;
use crate::time::Time;

verus! {

/// A half-open interval of wall-clock time: `start` belongs to the range,
/// `end` does not. Construction does not order the bounds; operations that
/// need `start <= end` say so.
#[derive(Debug, PartialEq, Eq, Structural, Clone, Copy)]
pub struct TimeRange {
    pub start: Time,
    pub end: Time,
}

impl TimeRange {
    /// A well-ordered range: it does not end before it starts.
    pub open spec fn wf(self) -> bool {
        self.start.spec_minutes() <= self.end.spec_minutes()
    }

    /// The range's extent in minutes.
    pub open spec fn spec_length(self) -> int {
        self.end.spec_minutes() - self.start.spec_minutes()
    }

    /// Whether the instant `t` lies inside the half-open range.
    pub open spec fn spec_contains(self, t: Time) -> bool {
        self.start.spec_minutes() <= t.spec_minutes() < self.end.spec_minutes()
    }

    /// Builds the range `[start, end)` exactly as given.
    pub fn new(start: Time, end: Time) -> (r: TimeRange)
        ensures
            r == (TimeRange { start, end }),
    {
        TimeRange { start, end }
    }

    /// Decodes a raw slot reference of the form `YYYYMMDDHHMM`, trailing
    /// characters ignored, into its date and starting time.
    pub fn parse_stamp(stamp: &str) -> (r: Option<(Date, Time)>)
        ensures
            r == spec_parse_stamp(stamp@),
    {
        let n = stamp.unicode_len();
        if n < 12 {
            return None;
        }
        let year = match parse_fixed_digits(stamp, 0, 4) {
            Some(v) => v,
            None => {
                return None;
            },
        };
        let month = match parse_fixed_digits(stamp, 4, 6) {
            Some(v) => v,
            None => {
                return None;
            },
        };
        let day = match parse_fixed_digits(stamp, 6, 8) {
            Some(v) => v,
            None => {
                return None;
            },
        };
        let hour = match parse_fixed_digits(stamp, 8, 10) {
            Some(v) => v,
            None => {
                return None;
            },
        };
        let minute = match parse_fixed_digits(stamp, 10, 12) {
            Some(v) => v,
            None => {
                return None;
            },
        };
        proof {
            lemma_dec_val_nonneg(stamp@, 0, 4);
            lemma_dec_val_nonneg(stamp@, 4, 6);
            lemma_dec_val_nonneg(stamp@, 6, 8);
            lemma_dec_val_nonneg(stamp@, 8, 10);
            lemma_dec_val_nonneg(stamp@, 10, 12);
            lemma_dec_val_bound(stamp@, 0, 4);
            lemma_dec_val_bound(stamp@, 4, 6);
            lemma_dec_val_bound(stamp@, 6, 8);
            lemma_dec_val_bound(stamp@, 8, 10);
            lemma_dec_val_bound(stamp@, 10, 12);
        }
        if month < 1 || month > 12 {
            return None;
        }
        if day < 1 || day > 31 {
            return None;
        }
        if hour > 23 {
            return None;
        }
        if minute > 59 {
            return None;
        }
        Some(
            (
                Date { year: year as i32, month: month as u8, day: day as u8 },
                Time { hour: hour as u8, minute: minute as u8 },
            ),
        )
    }

    /// Whether the instant `time` lies inside the half-open range: the start
    /// is included, the end is not.
    pub fn contains_time(&self, time: &Time) -> (r: bool)
        ensures
            r == self.spec_contains(*time),
    {
        let min = time.as_minutes();
        self.start.as_minutes() <= min && min < self.end.as_minutes()
    }

    /// The range's extent in minutes.
    pub fn length_minutes(&self) -> (r: u32)
        requires
            self.wf(),
        ensures
            r == self.spec_length(),
    {
        self.end.as_minutes() - self.start.as_minutes()
    }
}

/// Whether the first twelve characters of `s` are ASCII digits.
pub open spec fn stamp_digits_ok(s: Seq<char>) -> bool {
    s.len() >= 12 && forall|k: int| 0 <= k < 12 ==> is_digit(s[k])
}

/// What `TimeRange::parse_stamp` returns: the five fixed-width decimal
/// fields of `YYYYMMDDHHMM`, provided all twelve characters are digits and
/// every field passes its range validation; `None` otherwise.
pub open spec fn spec_parse_stamp(s: Seq<char>) -> Option<(Date, Time)> {
    if !stamp_digits_ok(s) {
        None
    } else {
        let year = dec_val(s, 0, 4);
        let month = dec_val(s, 4, 6);
        let day = dec_val(s, 6, 8);
        let hour = dec_val(s, 8, 10);
        let minute = dec_val(s, 10, 12);
        if 1 <= month <= 12 && 1 <= day <= 31 && 0 <= hour <= 23 && 0 <= minute <= 59 && 0 <= year {
            Some(
                (
                    Date { year: year as i32, month: month as u8, day: day as u8 },
                    Time { hour: hour as u8, minute: minute as u8 },
                ),
            )
        } else {
            None
        }
    }
}

} // verus!
