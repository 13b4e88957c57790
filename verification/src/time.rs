//! Instants on the UTC time line, as seconds and nanoseconds since the epoch.

use vstd::prelude::*;

verus! {

/// First second of the calendar year 0, in seconds since the epoch.
pub const YEAR_0_START: i64 = -62_167_219_200;

/// Last second of the calendar year 9999, in seconds since the epoch.
pub const YEAR_9999_END: i64 = 253_402_300_799;

/// First second of the proleptic Gregorian calendar as the date library
/// counts it: the start of the year 262144 BCE.
pub const CALENDAR_START: i64 = -8_334_601_228_800;

/// Last second of that calendar: the end of the year 262142.
pub const CALENDAR_END: i64 = 8_210_266_876_799;

/// Upper bound, exclusive, of the nanosecond part of an ordinary second.
pub const NANOS_PER_SECOND: u32 = 1_000_000_000;

/// An instant in UTC: whole seconds since 1970-01-01T00:00:00Z and the
/// nanoseconds into that second. A nanosecond part of one second or more
/// stands for a leap second that follows the 59th second of a minute.
#[derive(Clone, Copy, Debug, PartialEq, Eq, Structural)]
pub struct Timestamp {
    pub secs: i64,
    pub nanos: u32,
}

impl Timestamp {
    /// Position on the time line: instants are ordered by seconds first and
    /// nanoseconds second.
    pub open spec fn rank(self) -> int {
        self.secs * 0x1_0000_0000 + self.nanos
    }

    /// Whether `self` is not earlier than `other`.
    pub open spec fn at_or_after(self, other: Timestamp) -> bool {
        self.rank() >= other.rank()
    }

    /// Whether the nanosecond part is that of an ordinary second, or of a
    /// leap second in the only place where one can stand.
    pub open spec fn nanos_in_range(self) -> bool {
        self.nanos < NANOS_PER_SECOND || (self.nanos < 2 * NANOS_PER_SECOND && self.secs % 60
            == 59)
    }

    /// Whether the instant is one that the calendar can name.
    pub open spec fn is_calendar_time(self) -> bool {
        CALENDAR_START <= self.secs <= CALENDAR_END && self.nanos_in_range()
    }

    /// Whether the instant lies in the calendar years 0 to 9999, the range in
    /// which a date can be written with a four-digit year.
    pub open spec fn has_four_digit_year(self) -> bool {
        YEAR_0_START <= self.secs <= YEAR_9999_END && self.nanos_in_range()
    }

    pub fn new(secs: i64, nanos: u32) -> (t: Timestamp)
        ensures
            t.secs == secs,
            t.nanos == nanos,
    {
        Timestamp { secs, nanos }
    }

    /// Compares two instants.
    pub fn is_at_or_after(&self, other: &Timestamp) -> (r: bool)
        ensures
            r == self.at_or_after(*other),
    {
        self.secs > other.secs || (self.secs == other.secs && self.nanos >= other.nanos)
    }

    /// Tests `nanos_in_range`.
    pub fn has_nanos_in_range(&self) -> (r: bool)
        ensures
            r == self.nanos_in_range(),
    {
        let second_of_minute = self.secs.checked_rem_euclid(60);
        self.nanos < NANOS_PER_SECOND || (self.nanos < 2 * NANOS_PER_SECOND && second_of_minute
            == Some(59))
    }

    /// Tests `is_calendar_time`.
    pub fn fits_calendar(&self) -> (r: bool)
        ensures
            r == self.is_calendar_time(),
    {
        CALENDAR_START <= self.secs && self.secs <= CALENDAR_END && self.has_nanos_in_range()
    }

    /// Tests `has_four_digit_year`.
    pub fn fits_four_digit_year(&self) -> (r: bool)
        ensures
            r == self.has_four_digit_year(),
    {
        YEAR_0_START <= self.secs && self.secs <= YEAR_9999_END && self.has_nanos_in_range()
    }
}

} // verus!
