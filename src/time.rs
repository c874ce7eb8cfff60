use vstd::prelude::*;

verus! {

/// Earliest year that the calendar backend represents.
pub const YEAR_MIN: i32 = -262143;

/// Latest year that the calendar backend represents.
pub const YEAR_MAX: i32 = 262142;

pub open spec fn is_leap_year(y: int) -> bool {
    y % 4 == 0 && (y % 100 != 0 || y % 400 == 0)
}

pub open spec fn days_in_month(y: int, m: int) -> int {
    if m == 2 {
        if is_leap_year(y) { 29 } else { 28 }
    } else if m == 4 || m == 6 || m == 9 || m == 11 {
        30
    } else {
        31
    }
}

/// A proleptic Gregorian date and a time of day without leap seconds.
pub open spec fn civil_valid(y: i32, mo: u32, d: u32, h: u32, mi: u32, s: u32) -> bool {
    &&& YEAR_MIN <= y <= YEAR_MAX
    &&& 1 <= mo <= 12
    &&& 1 <= d <= days_in_month(y as int, mo as int)
    &&& h < 24
    &&& mi < 60
    &&& s < 60
}

/// Seconds since 1970-01-01T00:00:00 UTC of a valid UTC date and time.
pub uninterp spec fn utc_seconds(y: i32, mo: u32, d: u32, h: u32, mi: u32, s: u32) -> i64;

/// Relies on chrono's `NaiveDate::from_ymd_opt`, `NaiveDate::and_hms_opt` and
/// `DateTime::timestamp`: `None` exactly for dates and times that do not
/// exist, otherwise the UTC timestamp.
#[verifier::external_body]
pub(crate) fn utc_timestamp(y: i32, mo: u32, d: u32, h: u32, mi: u32, s: u32) -> (r: Option<i64>)
    ensures
        r is Some <==> civil_valid(y, mo, d, h, mi, s),
        r matches Some(t) ==> t == utc_seconds(y, mo, d, h, mi, s),
{
    match chrono::NaiveDate::from_ymd_opt(y, mo, d) {
        Some(date) => match date.and_hms_opt(h, mi, s) {
            Some(dt) => Some(dt.and_utc().timestamp()),
            None => None,
        },
        None => None,
    }
}

/// A UTC time of day on a calendar date, with its Unix timestamp.
#[derive(Debug, Clone, Copy, PartialEq, Eq, Structural)]
pub struct LogTime {
    pub year: i32,
    pub month: u32,
    pub day: u32,
    pub hour: u32,
    pub minute: u32,
    pub second: u32,
    /// Seconds since the Unix epoch.
    pub timestamp: i64,
}

impl LogTime {
    pub open spec fn wf(&self) -> bool {
        &&& civil_valid(self.year, self.month, self.day, self.hour, self.minute, self.second)
        &&& self.timestamp == utc_seconds(
            self.year,
            self.month,
            self.day,
            self.hour,
            self.minute,
            self.second,
        )
    }

    /// Builds the time if the date and time exist.
    pub fn new(year: i32, month: u32, day: u32, hour: u32, minute: u32, second: u32) -> (r: Option<LogTime>)
        ensures
            r is Some <==> civil_valid(year, month, day, hour, minute, second),
            r matches Some(t) ==> t.wf() && t.year == year && t.month == month && t.day == day
                && t.hour == hour && t.minute == minute && t.second == second,
    {
        match utc_timestamp(year, month, day, hour, minute, second) {
            Some(timestamp) => Some(LogTime { year, month, day, hour, minute, second, timestamp }),
            None => None,
        }
    }

    pub fn hour(&self) -> (r: u32)
        ensures
            r == self.hour,
    {
        self.hour
    }

    pub fn timestamp(&self) -> (r: i64)
        ensures
            r == self.timestamp,
    {
        self.timestamp
    }
}

} // verus!
