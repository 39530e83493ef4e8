//! Calendar instants.
//!
//! A timestamp on the wire is a UTC instant written as a fixed-width
//! ISO-8601 text. The library keeps it as its calendar fields, with the
//! validity of the date as the type's well-formedness predicate; only the
//! display conversion to the fixed Eastern time zone is left to the time
//! zone database.

use vstd::prelude::*;

verus! {

/// A UTC instant, second precision, as its calendar fields.
#[derive(Clone, Copy, Debug, PartialEq, Eq, Structural)]
pub struct Instant {
    pub year: u16,
    pub month: u8,
    pub day: u8,
    pub hour: u8,
    pub minute: u8,
    pub second: u8,
}

pub open spec fn spec_is_leap_year(y: int) -> bool {
    y % 4 == 0 && (y % 100 != 0 || y % 400 == 0)
}

pub open spec fn spec_days_in_month(y: int, m: int) -> int {
    if m == 2 {
        if spec_is_leap_year(y) {
            29
        } else {
            28
        }
    } else if m == 4 || m == 6 || m == 9 || m == 11 {
        30
    } else {
        31
    }
}

/// A well-formed instant is a valid Gregorian calendar date (leap years
/// included) with in-range time-of-day fields, in the four-digit-year era.
pub open spec fn wf_instant(t: Instant) -> bool {
    &&& t.year <= 9999
    &&& 1 <= t.month <= 12
    &&& 1 <= t.day <= spec_days_in_month(t.year as int, t.month as int)
    &&& t.hour <= 23
    &&& t.minute <= 59
    &&& t.second <= 59
}

pub fn days_in_month(y: u16, m: u8) -> (r: u8)
    requires
        1 <= m <= 12,
    ensures
        r == spec_days_in_month(y as int, m as int),
{
    if m == 2 {
        if y % 4 == 0 && (y % 100 != 0 || y % 400 == 0) {
            29
        } else {
            28
        }
    } else if m == 4 || m == 6 || m == 9 || m == 11 {
        30
    } else {
        31
    }
}

/// Decide whether an instant is well formed.
pub fn instant_wf(t: &Instant) -> (b: bool)
    ensures
        b == wf_instant(*t),
{
    t.year <= 9999 && 1 <= t.month && t.month <= 12 && 1 <= t.day && t.day <= days_in_month(
        t.year,
        t.month,
    ) && t.hour <= 23 && t.minute <= 59 && t.second <= 59
}

} // verus!
