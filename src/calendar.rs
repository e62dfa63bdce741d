//! The creation timestamp of a level: a calendar date and a time of day to
//! the minute.
use vstd::prelude::*;

use crate::bytes::{be16, push_be16};

verus! {

/// Leap years of the proleptic Gregorian calendar.
pub open spec fn is_leap_year(y: int) -> bool {
    (y % 4 == 0 && y % 100 != 0) || y % 400 == 0
}

/// Number of days in month `m` of year `y`.
pub open spec fn days_in_month(y: int, m: int) -> int {
    if m == 2 {
        if is_leap_year(y) {
            29
        } else {
            28
        }
    } else if m == 4 || m == 6 || m == 9 || m == 11 {
        30
    } else {
        31
    }
}

/// The date exists in the Gregorian calendar.
pub open spec fn valid_date(year: u16, month: u8, day: u8) -> bool {
    1 <= month <= 12 && 1 <= day <= days_in_month(year as int, month as int)
}

/// The hour and minute name a time of day.
pub open spec fn valid_time(hour: u8, minute: u8) -> bool {
    hour < 24 && minute < 60
}

/// Relies on chrono::NaiveDate::from_ymd_opt, which returns a date exactly
/// when the month and day exist in that year of the proleptic Gregorian
/// calendar; every `u16` year lies in its range.
#[verifier::external_body]
fn date_exists(year: u16, month: u8, day: u8) -> (r: bool)
    ensures
        r == valid_date(year, month, day),
{
    chrono::NaiveDate::from_ymd_opt(year as i32, month as u32, day as u32).is_some()
}

/// Relies on chrono::NaiveTime::from_hms_opt, which returns a time exactly
/// when the hour is below 24 and the minute and second below 60.
#[verifier::external_body]
fn time_exists(hour: u8, minute: u8) -> (r: bool)
    ensures
        r == valid_time(hour, minute),
{
    chrono::NaiveTime::from_hms_opt(hour as u32, minute as u32, 0).is_some()
}

/// A calendar timestamp to the minute, without seconds or time zone.
#[derive(Debug, Clone, Copy, PartialEq, Eq, Structural)]
pub struct CreationTime {
    pub year: u16,
    pub month: u8,
    pub day: u8,
    pub hour: u8,
    pub minute: u8,
}

impl CreationTime {
    /// The fields name an existing date and time of day.
    pub open spec fn wf(&self) -> bool {
        valid_date(self.year, self.month, self.day) && valid_time(self.hour, self.minute)
    }

    /// The six bytes of the wire form: the year big-endian, then month, day,
    /// hour and minute.
    pub open spec fn image(&self) -> Seq<u8> {
        be16(self.year) + seq![self.month, self.day, self.hour, self.minute]
    }

    /// A timestamp from its fields, or `None` where they name no date or
    /// time of day.
    pub fn new(year: u16, month: u8, day: u8, hour: u8, minute: u8) -> (r: Option<CreationTime>)
        ensures
            r is Some <==> valid_date(year, month, day) && valid_time(hour, minute),
            r matches Some(t) ==> t == (CreationTime { year, month, day, hour, minute }),
    {
        let t = CreationTime { year, month, day, hour, minute };
        if t.is_valid() {
            Some(t)
        } else {
            None
        }
    }

    pub fn is_valid(&self) -> (r: bool)
        ensures
            r == self.wf(),
    {
        date_exists(self.year, self.month, self.day) && time_exists(self.hour, self.minute)
    }

    /// Appends the wire form.
    pub fn write_to(&self, buf: &mut Vec<u8>)
        ensures
            final(buf)@ == old(buf)@ + self.image(),
    {
        push_be16(buf, self.year);
        buf.push(self.month);
        buf.push(self.day);
        buf.push(self.hour);
        buf.push(self.minute);
        assert(final(buf)@ =~= old(buf)@ + self.image());
    }
}

} // verus!
