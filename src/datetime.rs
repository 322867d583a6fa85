//! Archive timestamps: calendar fields without a time zone.

use vstd::prelude::*;

verus! {

/// A last-modified time as an archive stores it.
#[derive(Clone, Copy, Debug, PartialEq, Eq, Structural)]
pub struct ArchiveDateTime {
    pub year: u16,
    pub month: u8,
    pub day: u8,
    pub hour: u8,
    pub minute: u8,
    pub second: u8,
}

impl ArchiveDateTime {
    /// The fields lie in their calendar ranges (a day of 31 is accepted in
    /// every month, and a leap second, as archives store them).
    pub open spec fn wf(&self) -> bool {
        &&& 1 <= self.month <= 12
        &&& 1 <= self.day <= 31
        &&& self.hour < 24
        &&& self.minute < 60
        &&& self.second <= 60
    }
}

/// Days from 1970-01-01 to the given civil date of the proleptic Gregorian
/// calendar, counted in 400-year eras of 146097 days from 0000-03-01.
pub open spec fn days_from_civil(year: int, month: int, day: int) -> int {
    let y = if month <= 2 {
        year - 1
    } else {
        year
    };
    let era = y / 400;
    let yoe = y - era * 400;
    let mp = if month > 2 {
        month - 3
    } else {
        month + 9
    };
    let doy = (153 * mp + 2) / 5 + day - 1;
    let doe = yoe * 365 + yoe / 4 - yoe / 100 + doy;
    era * 146097 + doe - 719468
}

/// Seconds since the Unix epoch of a time read as UTC.
pub open spec fn unix_seconds_spec(dt: ArchiveDateTime) -> int {
    days_from_civil(dt.year as int, dt.month as int, dt.day as int) * 86400 + dt.hour * 3600
        + dt.minute * 60 + dt.second
}

/// Days from 1970-01-01 to `year`-`month`-`day`.
pub fn days_from_date(year: i32, month: i32, day: i32) -> (r: i64)
    requires
        1 <= month <= 12,
        1 <= day <= 31,
    ensures
        r == days_from_civil(year as int, month as int, day as int),
        -785_000_000_000 <= r <= 785_000_000_000,
{
    let y: i64 = if month <= 2 {
        year as i64 - 1
    } else {
        year as i64
    };
    // floor division, also for years before 1 BC
    let era: i64 = if y >= 0 {
        y / 400
    } else {
        -((399 - y) / 400)
    };
    assert(era == y / 400) by {
        if y < 0 {
            let q = (399 - y) / 400;
            assert(400 * q <= 399 - y < 400 * q + 400);
        }
    }
    let yoe: i64 = y - era * 400;
    let mp: i64 = if month > 2 {
        month as i64 - 3
    } else {
        month as i64 + 9
    };
    let doy: i64 = (153 * mp + 2) / 5 + day as i64 - 1;
    let doe: i64 = yoe * 365 + yoe / 4 - yoe / 100 + doy;
    era * 146097 + doe - 719468
}

/// Seconds since the Unix epoch of `dt` read as UTC, or `None` when a field
/// lies outside its range.
pub fn datetime_to_unix_seconds(dt: ArchiveDateTime) -> (r: Option<i64>)
    ensures
        r == if dt.wf() {
            Some(unix_seconds_spec(dt) as i64)
        } else {
            None::<i64>
        },
        dt.wf() ==> -785_000_000_000 * 86400 <= unix_seconds_spec(dt) <= 785_000_000_000 * 86400
            + 86400,
{
    if !(1 <= dt.month && dt.month <= 12 && 1 <= dt.day && dt.day <= 31 && dt.hour < 24
        && dt.minute < 60 && dt.second <= 60) {
        return None;
    }
    let days = days_from_date(dt.year as i32, dt.month as i32, dt.day as i32);
    Some(days * 86400 + dt.hour as i64 * 3600 + dt.minute as i64 * 60 + dt.second as i64)
}

/// The archive time of an entry in seconds, when it has a valid one.
pub open spec fn archive_seconds(m: Option<ArchiveDateTime>) -> Option<i64> {
    match m {
        Some(dt) => if dt.wf() {
            Some(unix_seconds_spec(dt) as i64)
        } else {
            None
        },
        None => None,
    }
}

} // verus!
