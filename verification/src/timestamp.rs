//! Points in time, in the calendar form in which entries store them.

use vstd::prelude::*;

verus! {

/// Whether `year` is a leap year of the proleptic Gregorian calendar.
pub open spec fn is_leap_year(year: int) -> bool {
    year % 4 == 0 && (year % 100 != 0 || year % 400 == 0)
}

/// The number of days of `year`.
pub open spec fn days_in_year(year: int) -> int {
    if is_leap_year(year) {
        366
    } else {
        365
    }
}

/// The earliest year that a timestamp can lie in.
pub const MIN_YEAR: i32 = -100_000;

/// The latest year that a timestamp can lie in.
pub const MAX_YEAR: i32 = 100_000;

/// The number of seconds in a day.
pub const SECONDS_PER_DAY: u32 = 86_400;

/// The number of nanoseconds in a second.
pub const NANOSECONDS_PER_SECOND: u32 = 1_000_000_000;

/// The furthest from the epoch, in seconds either way, that unix time is
/// converted to the calendar: somewhat over 95,000 years.
pub const UNIX_SECONDS_SPAN: i64 = 3_000_000_000_000;

/// The year, the day of the year, and the hour, minute and second of the day
/// that lies `seconds` after the unix epoch, in UTC, as
/// `time::OffsetDateTime::from_unix_timestamp` gives them.
pub uninterp spec fn utc_calendar(seconds: int) -> (i32, u16, u8, u8, u8);

/// Wraps `time::OffsetDateTime::from_unix_timestamp` and the getters `year`,
/// `ordinal`, `hour`, `minute` and `second`: the calendar form of a unix
/// time.
///
/// Outside of the span required here the conversion may leave the years
/// that `time` can hold, and panics.
#[verifier::external_body]
fn calendar(seconds: i64) -> (r: (i32, u16, u8, u8, u8))
    requires
        -UNIX_SECONDS_SPAN <= seconds <= UNIX_SECONDS_SPAN,
    ensures
        r == utc_calendar(seconds as int),
{
    let t = time::OffsetDateTime::from_unix_timestamp(seconds);
    (t.year(), t.ordinal(), t.hour(), t.minute(), t.second())
}

/// A point in time in UTC: a year, the day of that year counted from 1, the
/// second of that day and the nanosecond of that second.
#[derive(Clone, Copy, Debug, PartialEq, Eq, Structural)]
pub struct Timestamp {
    /// The year, in astronomical numbering.
    pub year: i32,
    /// The day of the year, counted from 1.
    pub ordinal: u16,
    /// The second of the day, counted from 0.
    pub second: u32,
    /// The nanosecond of the second, counted from 0.
    pub nanosecond: u32,
}

impl Timestamp {
    /// Whether the fields name a day that exists and a time within it.
    pub open spec fn valid(&self) -> bool {
        &&& MIN_YEAR <= self.year <= MAX_YEAR
        &&& 1 <= self.ordinal <= days_in_year(self.year as int)
        &&& self.second < SECONDS_PER_DAY
        &&& self.nanosecond < NANOSECONDS_PER_SECOND
    }

    /// The timestamp that stored fields stand for, if they name a day that
    /// exists.  A time of day past the end of the day wraps around within the
    /// same day, and whole seconds held in `nanosecond` count as seconds.
    pub open spec fn of_parts(year: i32, ordinal: u16, second: u32, nanosecond: u32) -> Option<
        Timestamp,
    > {
        if MIN_YEAR <= year <= MAX_YEAR && 1 <= ordinal <= days_in_year(year as int) {
            Some(
                Timestamp {
                    year,
                    ordinal,
                    second: ((second + nanosecond / NANOSECONDS_PER_SECOND)
                        % SECONDS_PER_DAY as int) as u32,
                    nanosecond: nanosecond % NANOSECONDS_PER_SECOND,
                },
            )
        } else {
            None
        }
    }

    /// The timestamp of the whole second that lies `seconds` after the unix
    /// epoch, if that is within [`UNIX_SECONDS_SPAN`] of the epoch and the
    /// calendar gives a day that exists for it.
    pub open spec fn of_unix(seconds: int) -> Option<Timestamp> {
        if -UNIX_SECONDS_SPAN <= seconds <= UNIX_SECONDS_SPAN {
            let cal = utc_calendar(seconds);
            Timestamp::of_parts(cal.0, cal.1, (cal.2 * 3_600 + cal.3 * 60 + cal.4) as u32, 0)
        } else {
            None
        }
    }

    /// Converts unix time, in whole seconds, to a timestamp; see
    /// [`Timestamp::of_unix`].
    pub fn from_unix_timestamp(seconds: i64) -> (r: Option<Timestamp>)
        ensures
            r == Timestamp::of_unix(seconds as int),
            r matches Some(t) ==> t.valid(),
    {
        if seconds < -UNIX_SECONDS_SPAN || seconds > UNIX_SECONDS_SPAN {
            return None;
        }
        let cal = calendar(seconds);
        let second: u32 = cal.2 as u32 * 3_600 + cal.3 as u32 * 60 + cal.4 as u32;
        Timestamp::from_parts(cal.0, cal.1, second, 0)
    }

    /// Builds a timestamp from stored fields; see [`Timestamp::of_parts`].
    pub fn from_parts(year: i32, ordinal: u16, second: u32, nanosecond: u32) -> (r: Option<
        Timestamp,
    >)
        ensures
            r == Timestamp::of_parts(year, ordinal, second, nanosecond),
            r matches Some(t) ==> t.valid(),
            (Timestamp { year, ordinal, second, nanosecond }).valid() ==> r == Some(
                Timestamp { year, ordinal, second, nanosecond },
            ),
    {
        if year < MIN_YEAR || year > MAX_YEAR {
            return None;
        }
        let days: u16 = if leap_year(year) {
            366
        } else {
            365
        };
        if ordinal < 1 || ordinal > days {
            return None;
        }
        let carried: u64 = second as u64 + (nanosecond / NANOSECONDS_PER_SECOND) as u64;
        let wrapped: u64 = carried % (SECONDS_PER_DAY as u64);
        Some(
            Timestamp {
                year,
                ordinal,
                second: wrapped as u32,
                nanosecond: nanosecond % NANOSECONDS_PER_SECOND,
            },
        )
    }
}

/// Returns whether `year` is a leap year.
pub fn leap_year(year: i32) -> (r: bool)
    ensures
        r == is_leap_year(year as int),
{
    let magnitude: u32 = if year < 0 {
        (-(year as i64)) as u32
    } else {
        year as u32
    };
    magnitude % 4 == 0 && (magnitude % 100 != 0 || magnitude % 400 == 0)
}

} // verus!
