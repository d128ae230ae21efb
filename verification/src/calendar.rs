//! Dates of the Gregorian calendar, counted from the first of January 1970.

use vstd::prelude::*;

use crate::text::push_padded_decimal;

verus! {

/// Whether a year has a leap day.
pub open spec fn is_leap(year: int) -> bool {
    year % 4 == 0 && (year % 100 != 0 || year % 400 == 0)
}

/// The days of a year.
pub open spec fn year_days(year: int) -> int {
    if is_leap(year) {
        366
    } else {
        365
    }
}

/// The days of a month, counted from 1.
pub open spec fn month_days(year: int, month: int) -> int {
    if month == 2 {
        if is_leap(year) {
            29
        } else {
            28
        }
    } else if month == 4 || month == 6 || month == 9 || month == 11 {
        30
    } else {
        31
    }
}

/// The days from 1970 to the beginning of a year.
pub open spec fn days_to_year(year: int) -> int
    decreases year - 1970,
{
    if year <= 1970 {
        0
    } else {
        days_to_year(year - 1) + year_days(year - 1)
    }
}

/// The days from the beginning of a year to that of a month.
pub open spec fn days_to_month(year: int, month: int) -> int
    decreases month,
{
    if month <= 1 {
        0
    } else {
        days_to_month(year, month - 1) + month_days(year, month - 1)
    }
}

/// A date.
#[derive(Clone, Copy, PartialEq, Eq, Structural, Debug)]
pub struct Date {
    pub year: u64,
    pub month: u64,
    pub day: u64,
}

/// Whether there is such a date.
pub open spec fn is_date(d: Date) -> bool {
    &&& d.year >= 1970
    &&& 1 <= d.month <= 12
    &&& 1 <= d.day <= month_days(d.year as int, d.month as int)
}

/// The days from the first of January 1970 to a date.
pub open spec fn days_to(d: Date) -> int {
    days_to_year(d.year as int) + days_to_month(d.year as int, d.month as int) + d.day - 1
}

proof fn months_fill_the_year(year: int)
    ensures
        days_to_month(year, 13) == year_days(year),
{
    reveal_with_fuel(days_to_month, 13);
}

proof fn days_to_month_grows(year: int, a: int, b: int)
    requires
        1 <= a < b <= 13,
    ensures
        days_to_month(year, a) + month_days(year, a) <= days_to_month(year, b),
    decreases b,
{
    if a < b - 1 {
        days_to_month_grows(year, a, b - 1);
    }
}

proof fn days_to_year_grows(a: int, b: int)
    requires
        1970 <= a < b,
    ensures
        days_to_year(a) + year_days(a) <= days_to_year(b),
    decreases b,
{
    if a < b - 1 {
        days_to_year_grows(a, b - 1);
    }
}

/// Every day has one date: two dates that are equally far from 1970 are the same.
pub proof fn dates_are_unique(a: Date, b: Date)
    requires
        is_date(a),
        is_date(b),
        days_to(a) == days_to(b),
    ensures
        a == b,
{
    later_dates_are_later(a, b);
    later_dates_are_later(b, a);
}

/// A later date is more days away.
pub proof fn later_dates_are_later(a: Date, b: Date)
    requires
        is_date(a),
        is_date(b),
    ensures
        a.year < b.year ==> days_to(a) < days_to(b),
        a.year == b.year && a.month < b.month ==> days_to(a) < days_to(b),
        a.year == b.year && a.month == b.month && a.day < b.day ==> days_to(a) < days_to(b),
{
    if a.year < b.year {
        days_to_year_grows(a.year as int, b.year as int);
        months_fill_the_year(a.year as int);
        days_to_month_grows(a.year as int, a.month as int, 13);
        month_starts_are_not_negative(b.year as int, b.month as int);
    } else if a.year == b.year && a.month < b.month {
        days_to_month_grows(a.year as int, a.month as int, b.month as int);
    }
}

proof fn month_starts_are_not_negative(year: int, month: int)
    ensures
        days_to_month(year, month) >= 0,
    decreases month,
{
    if month > 1 {
        month_starts_are_not_negative(year, month - 1);
    }
}

/// Whether a year has a leap day.
pub fn leap_year(year: u64) -> (r: bool)
    ensures
        r == is_leap(year as int),
{
    year % 4 == 0 && (year % 100 != 0 || year % 400 == 0)
}

/// The days of a month.
pub fn days_in_month(year: u64, month: u64) -> (r: u64)
    ensures
        r == month_days(year as int, month as int),
{
    if month == 2 {
        if leap_year(year) {
            29
        } else {
            28
        }
    } else if month == 4 || month == 6 || month == 9 || month == 11 {
        30
    } else {
        31
    }
}

/// The date that is so many days after the first of January 1970.
pub fn date_after(days: u64) -> (d: Date)
    requires
        days <= u64::MAX / 86400,
    ensures
        is_date(d),
        days_to(d) == days,
{
    let mut year: u64 = 1970;
    let mut rest: u64 = days;
    let mut len: u64 = 365;
    while rest >= len
        invariant
            year >= 1970,
            year <= 1970 + days,
            days <= u64::MAX / 86400,
            days == days_to_year(year as int) + rest,
            days - rest >= year - 1970,
            len == year_days(year as int),
        decreases rest,
    {
        rest = rest - len;
        year = year + 1;
        len = if leap_year(year) {
            366
        } else {
            365
        };
    }
    let mut month: u64 = 1;
    let mut left: u64 = rest;
    proof {
        months_fill_the_year(year as int);
    }
    while left >= days_in_month(year, month)
        invariant
            1 <= month <= 12,
            rest < year_days(year as int),
            rest == days_to_month(year as int, month as int) + left,
            days_to_month(year as int, 13) == year_days(year as int),
        decreases left,
    {
        proof {
            if month == 12 {
                assert(days_to_month(year as int, 13) == days_to_month(year as int, 12)
                    + month_days(year as int, 12));
            }
        }
        left = left - days_in_month(year, month);
        month = month + 1;
    }
    Date { year, month, day: left + 1 }
}

/// A date and time of day as "YYYYMMDD_HHMMSS".
pub open spec fn stamp_of(d: Date, secs: int) -> Seq<char> {
    crate::text::padded_decimal(d.year as int, 4) + crate::text::padded_decimal(d.month as int, 2)
        + crate::text::padded_decimal(d.day as int, 2) + "_"@ + crate::text::padded_decimal(
        secs / 3600,
        2,
    ) + crate::text::padded_decimal(secs % 3600 / 60, 2) + crate::text::padded_decimal(secs % 60, 2)
}

/// The time, given in seconds since 1970, as "YYYYMMDD_HHMMSS": that of the one date
/// whose day it is.
pub fn chrono_stamp(secs: u64) -> (out: String)
    ensures
        forall|d: Date|
            is_date(d) && #[trigger] days_to(d) == secs / 86400 ==> out@ == stamp_of(
                d,
                (secs % 86400) as int,
            ),
        exists|d: Date| is_date(d) && #[trigger] days_to(d) == secs / 86400,
{
    let days: u64 = secs / 86400;
    let time: u64 = secs % 86400;
    let date: Date = date_after(days);
    let mut out: String = String::new();
    push_padded_decimal(&mut out, date.year, 4);
    push_padded_decimal(&mut out, date.month, 2);
    push_padded_decimal(&mut out, date.day, 2);
    out.push('_');
    push_padded_decimal(&mut out, time / 3600, 2);
    push_padded_decimal(&mut out, time % 3600 / 60, 2);
    push_padded_decimal(&mut out, time % 60, 2);
    proof {
        reveal_strlit("_");
        assert(out@ =~= stamp_of(date, time as int));
        assert forall|d: Date|
            is_date(d) && #[trigger] days_to(d) == secs / 86400 implies out@ == stamp_of(
            d,
            (secs % 86400) as int,
        ) by {
            dates_are_unique(d, date);
        }
    }
    out
}

/// The days before a year are 365 for each year since 1970, and one for each leap day in
/// between: one in four years, but for the hundreds, but for the four hundreds.
pub proof fn leap_days_are_counted(year: int)
    requires
        year >= 1970,
    ensures
        days_to_year(year) == 365 * (year - 1970) + ((year - 1) / 4 - (year - 1) / 100 + (year - 1)
            / 400) - 477,
    decreases year,
{
    if year > 1970 {
        leap_days_are_counted(year - 1);
        assert((year - 1) / 4 - (year - 2) / 4 == if (year - 1) % 4 == 0 {
            1int
        } else {
            0
        });
        assert((year - 1) / 100 - (year - 2) / 100 == if (year - 1) % 100 == 0 {
            1int
        } else {
            0
        });
        assert((year - 1) / 400 - (year - 2) / 400 == if (year - 1) % 400 == 0 {
            1int
        } else {
            0
        });
    }
}

/// The months begin where they do: from March on, five of them take 153 days, and only
/// February depends on the year.
pub proof fn months_begin_where_they_do(year: int, month: int)
    requires
        1 <= month <= 13,
    ensures
        month == 1 ==> days_to_month(year, month) == 0,
        month == 2 ==> days_to_month(year, month) == 31,
        month >= 3 ==> days_to_month(year, month) == (153 * (month - 3) + 2) / 5 + year_days(year)
            - 306,
{
    reveal_with_fuel(days_to_month, 13);
}

/// A stamp tells year, month, day, hour, minute and second, each at its place.
pub proof fn stamps_tell_the_time(d: Date, secs: int)
    requires
        is_date(d),
        d.year < 10000,
        0 <= secs < 86400,
    ensures
        ({
            let s = stamp_of(d, secs);
            &&& s.len() == 15
            &&& crate::text::number_in(s.subrange(0, 4), 10) == d.year
            &&& crate::text::number_in(s.subrange(4, 6), 10) == d.month
            &&& crate::text::number_in(s.subrange(6, 8), 10) == d.day
            &&& s[8] == '_'
            &&& crate::text::number_in(s.subrange(9, 11), 10) * 3600 + crate::text::number_in(
                s.subrange(11, 13),
                10,
            ) * 60 + crate::text::number_in(s.subrange(13, 15), 10) == secs
            &&& crate::text::number_in(s.subrange(11, 13), 10) < 60
            &&& crate::text::number_in(s.subrange(13, 15), 10) < 60
        }),
{
    reveal_strlit("_");
    reveal(vstd::arithmetic::power::pow);
    assert(vstd::arithmetic::power::pow(10, 0) == 1);
    assert(vstd::arithmetic::power::pow(10, 1) == 10);
    assert(vstd::arithmetic::power::pow(10, 2) == 100);
    assert(vstd::arithmetic::power::pow(10, 3) == 1000);
    assert(vstd::arithmetic::power::pow(10, 4) == 10000);
    let year = crate::text::padded_decimal(d.year as int, 4);
    let month = crate::text::padded_decimal(d.month as int, 2);
    let day = crate::text::padded_decimal(d.day as int, 2);
    let hours = crate::text::padded_decimal(secs / 3600, 2);
    let minutes = crate::text::padded_decimal(secs % 3600 / 60, 2);
    let seconds = crate::text::padded_decimal(secs % 60, 2);
    crate::text::padding_changes_no_number(d.year as int, 4);
    crate::text::padding_changes_no_number(d.month as int, 2);
    crate::text::padding_changes_no_number(d.day as int, 2);
    crate::text::padding_changes_no_number(secs / 3600, 2);
    crate::text::padding_changes_no_number(secs % 3600 / 60, 2);
    crate::text::padding_changes_no_number(secs % 60, 2);
    let s = stamp_of(d, secs);
    assert(s.subrange(0, 4) =~= year);
    assert(s.subrange(4, 6) =~= month);
    assert(s.subrange(6, 8) =~= day);
    assert(s.subrange(9, 11) =~= hours);
    assert(s.subrange(11, 13) =~= minutes);
    assert(s.subrange(13, 15) =~= seconds);
}

} // verus!
