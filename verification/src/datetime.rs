//! A civil date and time of day in the proleptic Gregorian calendar, and the
//! verified conversion from a day count to a calendar date. The wire formats
//! carry datetimes as day counts plus sub-day increments; this module turns
//! those into year, month, day and clock fields.
use vstd::prelude::*;

verus! {

/// A civil date with a time of day, to nanosecond precision.
#[derive(Copy, Clone, Debug, PartialEq, Eq, Structural)]
pub struct Datetime {
    /// Calendar year, from 1.
    pub year: u16,
    /// Calendar month, 1 to 12.
    pub month: u8,
    /// Day of the month, from 1.
    pub day: u8,
    /// Hour of the day, 0 to 23.
    pub hour: u8,
    /// Minute, 0 to 59.
    pub minute: u8,
    /// Second, 0 to 59.
    pub second: u8,
    /// Nanoseconds within the second.
    pub nanosecond: u32,
}

/// Whether `y` is a leap year in the proleptic Gregorian calendar.
pub open spec fn is_leap_year(y: int) -> bool {
    (y % 4 == 0 && y % 100 != 0) || y % 400 == 0
}

/// The number of days of month `m` in year `y`.
pub open spec fn days_in_month(y: int, m: int) -> int
    recommends
        1 <= m <= 12,
{
    if m == 2 {
        if is_leap_year(y) {
            29
        } else {
            28
        }
    } else if m == 4 || m == 6 || m == 9 || m == 11 {
        30
    } else {
        31
    }
}

/// The number of days of year `y`.
pub open spec fn days_in_year(y: int) -> int {
    if is_leap_year(y) {
        366
    } else {
        365
    }
}

/// Days from the calendar origin (January 1 of year 1 is day 0) to January 1
/// of year `y`: 365 days a year, plus one for every leap year passed.
pub open spec fn days_before_year(y: int) -> int
    recommends
        y >= 1,
{
    365 * (y - 1) + (y - 1) / 4 - (y - 1) / 100 + (y - 1) / 400
}

/// Stepping one year forward adds exactly that year's days.
pub proof fn lemma_days_before_year_step(y: int)
    requires
        y >= 1,
    ensures
        days_before_year(y + 1) == days_before_year(y) + days_in_year(y),
{
    let k = y - 1;
    assert((k + 1) / 4 - k / 4 == if (k + 1) % 4 == 0 {
        1int
    } else {
        0int
    });
    assert((k + 1) / 100 - k / 100 == if (k + 1) % 100 == 0 {
        1int
    } else {
        0int
    });
    assert((k + 1) / 400 - k / 400 == if (k + 1) % 400 == 0 {
        1int
    } else {
        0int
    });
}

/// Days from January 1 of year `y` to the first day of month `m`.
pub open spec fn days_before_month(y: int, m: int) -> int
    recommends
        1 <= m <= 13,
    decreases m,
{
    if m <= 1 {
        0
    } else {
        days_before_month(y, m - 1) + days_in_month(y, m - 1)
    }
}

/// The day number of a civil date, counting January 1 of year 1 as day 0.
pub open spec fn day_number(y: int, m: int, d: int) -> int {
    days_before_year(y) + days_before_month(y, m) + (d - 1)
}

/// Whether the date fields name a real calendar day.
pub open spec fn valid_date(y: int, m: int, d: int) -> bool {
    &&& y >= 1
    &&& 1 <= m <= 12
    &&& 1 <= d <= days_in_month(y, m)
}

/// Whether every field of the datetime is in range.
pub open spec fn valid_datetime(dt: Datetime) -> bool {
    &&& valid_date(dt.year as int, dt.month as int, dt.day as int)
    &&& dt.hour < 24
    &&& dt.minute < 60
    &&& dt.second < 60
    &&& dt.nanosecond < 1_000_000_000
}

/// The nanoseconds from midnight to the datetime's time of day.
pub open spec fn nanos_of_day(dt: Datetime) -> int {
    ((dt.hour * 3600 + dt.minute * 60 + dt.second) * 1_000_000_000) + dt.nanosecond
}

/// A year is worth at least 365 days, so day counts bound the year.
proof fn lemma_days_before_year_lower(y: int)
    requires
        y >= 1,
    ensures
        days_before_year(y) >= 365 * (y - 1),
{
    let k = y - 1;
    vstd::arithmetic::div_mod::lemma_div_is_ordered_by_denominator(k, 4, 100);
    assert(k / 400 >= 0);
}

/// The months of a year sum to the year's days.
proof fn lemma_months_sum(y: int)
    ensures
        days_before_month(y, 13) == days_in_year(y),
{
    reveal_with_fuel(days_before_month, 14);
}

/// Split a day count into the year it falls in (counting from year `y`) and
/// the remaining days within that year.
pub open spec fn spec_split_year(days: int, y: int) -> (int, int)
    recommends
        days >= 0,
    decreases days,
{
    if days < days_in_year(y) {
        (y, days)
    } else {
        spec_split_year(days - days_in_year(y), y + 1)
    }
}

/// Split a day count within a year into the month it falls in (counting from
/// month `m`) and the remaining days within that month.
pub open spec fn spec_split_month(y: int, days: int, m: int) -> (int, int)
    decreases 12 - m,
{
    if m >= 12 || days < days_in_month(y, m) {
        (m, days)
    } else {
        spec_split_month(y, days - days_in_month(y, m), m + 1)
    }
}

/// The calendar date a day count names (January 1 of year 1 is day 0).
pub open spec fn spec_civil_of(days: int) -> (int, int, int) {
    let (y, rem) = spec_split_year(days, 1);
    let (m, rem2) = spec_split_month(y, rem, 1);
    (y, m, rem2 + 1)
}

/// The datetime a day count and nanoseconds-of-day name.
pub open spec fn spec_datetime_of(days: int, day_nanos: int) -> Datetime {
    let (y, m, d) = spec_civil_of(days);
    let secs = day_nanos / 1_000_000_000;
    Datetime {
        year: y as u16,
        month: m as u8,
        day: d as u8,
        hour: (secs / 3600) as u8,
        minute: ((secs / 60) % 60) as u8,
        second: (secs % 60) as u8,
        nanosecond: (day_nanos % 1_000_000_000) as u32,
    }
}

/// Whether `y` is a leap year.
pub fn leap_year(y: u16) -> (r: bool)
    ensures
        r == is_leap_year(y as int),
{
    (y % 4 == 0 && y % 100 != 0) || y % 400 == 0
}

/// The number of days of year `y`.
pub fn year_days(y: u16) -> (r: u16)
    ensures
        r == days_in_year(y as int),
{
    if leap_year(y) {
        366
    } else {
        365
    }
}

/// The number of days of month `m` in year `y`.
pub fn month_days(y: u16, m: u8) -> (r: u8)
    requires
        1 <= m <= 12,
    ensures
        r == days_in_month(y as int, m as int),
{
    if m == 2 {
        if leap_year(y) {
            29
        } else {
            28
        }
    } else if m == 4 || m == 6 || m == 9 || m == 11 {
        30
    } else {
        31
    }
}

/// Turn a day count (January 1 of year 1 is day 0) into the calendar date it
/// names.
pub fn civil_from_days(days: u32) -> (r: (u16, u8, u8))
    requires
        days <= 0xFFFFFF,
    ensures
        valid_date(r.0 as int, r.1 as int, r.2 as int),
        day_number(r.0 as int, r.1 as int, r.2 as int) == days,
        (r.0 as int, r.1 as int, r.2 as int) == spec_civil_of(days as int),
{
    let mut y: u16 = 1;
    let mut rem: u32 = days;
    while rem >= year_days(y) as u32
        invariant
            y >= 1,
            days <= 0xFFFFFF,
            days_before_year(y as int) + rem == days,
            y <= 46000,
            spec_split_year(days as int, 1) == spec_split_year(rem as int, y as int),
        decreases rem,
    {
        proof {
            lemma_days_before_year_lower((y + 1) as int);
            lemma_days_before_year_step(y as int);
        }
        rem = rem - year_days(y) as u32;
        y = y + 1;
    }
    let mut m: u8 = 1;
    proof {
        lemma_months_sum(y as int);
        assert(spec_split_year(rem as int, y as int) == (y as int, rem as int));
    }
    while m < 12 && rem >= month_days(y, m) as u32
        invariant
            1 <= m <= 12,
            days_before_year(y as int) + days_before_month(y as int, m as int) + rem == days,
            rem < days_in_year(y as int) - days_before_month(y as int, m as int),
            spec_split_year(days as int, 1) == (y as int, (days - days_before_year(
                y as int,
            )) as int),
            spec_split_month(y as int, (days - days_before_year(y as int)) as int, 1)
                == spec_split_month(y as int, rem as int, m as int),
        decreases 12 - m,
    {
        rem = rem - month_days(y, m) as u32;
        m = m + 1;
    }
    proof {
        assert(spec_split_month(y as int, rem as int, m as int) == (m as int, rem as int));
    }
    proof {
        if m == 12 {
            lemma_months_sum(y as int);
        }
        assert(rem < days_in_month(y as int, m as int));
    }
    (y, m, (rem + 1) as u8)
}

/// Build a datetime from a day count and the nanoseconds since that day's
/// midnight.
pub fn datetime_from_parts(days: u32, day_nanos: u64) -> (r: Datetime)
    requires
        days <= 0xFFFFFF,
        day_nanos < 86_400_000_000_000,
    ensures
        valid_datetime(r),
        day_number(r.year as int, r.month as int, r.day as int) == days,
        nanos_of_day(r) == day_nanos,
        r == spec_datetime_of(days as int, day_nanos as int),
{
    let (y, m, d) = civil_from_days(days);
    let secs: u64 = day_nanos / 1_000_000_000;
    let nanos: u32 = (day_nanos % 1_000_000_000) as u32;
    Datetime {
        year: y,
        month: m,
        day: d,
        hour: (secs / 3600) as u8,
        minute: ((secs / 60) % 60) as u8,
        second: (secs % 60) as u8,
        nanosecond: nanos,
    }
}

} // verus!
