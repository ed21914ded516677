//! Calendar dates of the timestamps that fonts hold.

use vstd::prelude::*;

use core::cmp::Ordering;

verus! {

/// The seconds between 1904-01-01 and 1970-01-01, both at midnight UTC.
pub const SECONDS_1904_TO_1970: i64 = 2082844800;

/// The latest count of seconds since 1970 taken: the greatest 32-bit signed value.
/// Counts from 0 to this one every platform's calendar converts alike.
pub const SECONDS_MAX: i64 = 2147483647;

/// A calendar date.
#[derive(Clone, Copy, Debug, Default, PartialEq, Eq, Structural)]
pub struct Date {
    pub year: u32,
    pub month: u8,
    pub day: u8,
}

/// The UTC calendar fields of a count of seconds since 1970-01-01: the years since
/// 1900, the months since January, and the day of the month.
pub uninterp spec fn utc_fields_of(seconds: int) -> (int, int, int);

/// Relies on time::at_utc: the broken-down UTC time of a count of seconds since
/// 1970, whose fields depend on that count alone; the month counts from 0 to 11 and
/// the day from 1 to 31. From 1970 on, within the 32-bit range of seconds, every
/// platform converts the same way and returns. Before 1970 the crate's own
/// conversion (on wasm, wasi and SGX) disagrees with the system calendar; past that
/// range a 32-bit `time_t` truncates and the Windows conversion may fail and panic.
#[verifier::external_body]
fn utc_fields(seconds: i64) -> (r: (i32, i32, i32))
    requires
        0 <= seconds <= SECONDS_MAX,
    ensures
        (r.0 as int, r.1 as int, r.2 as int) == utc_fields_of(seconds as int),
        0 <= r.1 <= 11,
        1 <= r.2 <= 31,
{
    let tm = time::at_utc(time::Timespec::new(seconds, 0));
    (tm.tm_year, tm.tm_mon, tm.tm_mday)
}

/// The order of dates: by year, then month, then day.
pub open spec fn date_order(a: Date, b: Date) -> Ordering {
    if a.year > b.year {
        Ordering::Greater
    } else if a.year < b.year {
        Ordering::Less
    } else if a.month > b.month {
        Ordering::Greater
    } else if a.month < b.month {
        Ordering::Less
    } else if a.day > b.day {
        Ordering::Greater
    } else if a.day < b.day {
        Ordering::Less
    } else {
        Ordering::Equal
    }
}

impl PartialOrd for Date {
    fn partial_cmp(&self, other: &Date) -> (r: Option<Ordering>)
        ensures
            r == Some(date_order(*self, *other)),
    {
        if self.year > other.year {
            return Some(Ordering::Greater);
        } else if self.year < other.year {
            return Some(Ordering::Less);
        }
        if self.month > other.month {
            return Some(Ordering::Greater);
        } else if self.month < other.month {
            return Some(Ordering::Less);
        }
        if self.day > other.day {
            return Some(Ordering::Greater);
        } else if self.day < other.day {
            return Some(Ordering::Less);
        }
        Some(Ordering::Equal)
    }
}

impl vstd::std_specs::cmp::PartialOrdSpecImpl for Date {
    open spec fn obeys_partial_cmp_spec() -> bool {
        true
    }

    open spec fn partial_cmp_spec(&self, other: &Date) -> Option<Ordering> {
        Some(date_order(*self, *other))
    }
}

impl Date {
    /// The date of calendar fields as the system calendar gives them: years since
    /// 1900, months since January, day of the month.
    pub fn from_utc_fields(years_since_1900: i32, months_since_january: i32, day: i32) -> (r: Date)
        ensures
            r == (Date {
                year: (years_since_1900 + 1900) as u32,
                month: (months_since_january + 1) as u8,
                day: day as u8,
            }),
    {
        Date {
            year: (years_since_1900 as i64 + 1900) as u32,
            month: (months_since_january as i64 + 1) as u8,
            day: day as u8,
        }
    }

    /// The UTC date of a count of seconds since 1970-01-01, from 1970 to 2038.
    pub fn at(seconds: i64) -> (r: Date)
        requires
            0 <= seconds <= SECONDS_MAX,
        ensures
            r == (Date {
                year: (utc_fields_of(seconds as int).0 + 1900) as u32,
                month: (utc_fields_of(seconds as int).1 + 1) as u8,
                day: utc_fields_of(seconds as int).2 as u8,
            }),
    {
        let (years, months, day) = utc_fields(seconds);
        Date::from_utc_fields(years, months, day)
    }

    /// The UTC date of a count of seconds since 1904-01-01, the epoch of font
    /// timestamps, for dates from 1970 to 2038.
    pub fn at_since_1904(seconds: i64) -> (r: Date)
        requires
            SECONDS_1904_TO_1970 <= seconds <= SECONDS_MAX + SECONDS_1904_TO_1970,
        ensures
            r == (Date {
                year: (utc_fields_of(seconds - SECONDS_1904_TO_1970).0 + 1900) as u32,
                month: (utc_fields_of(seconds - SECONDS_1904_TO_1970).1 + 1) as u8,
                day: utc_fields_of(seconds - SECONDS_1904_TO_1970).2 as u8,
            }),
    {
        Date::at(seconds - SECONDS_1904_TO_1970)
    }
}

} // verus!
