//! Calendar helpers for picking a day of a month.

use vstd::prelude::*;

verus! {

/// A leap year: divisible by 400, or by 4 but not by 100.
pub open spec fn leap_year(year: int) -> bool {
    year % 400 == 0 || (year % 4 == 0 && year % 100 != 0)
}

/// How many days a month counts here: February has 28 or 29; every other
/// month is taken as 30 days flat.
pub open spec fn days_in_month_spec(year: int, month: int) -> int {
    if month == 2 {
        if leap_year(year) {
            29
        } else {
            28
        }
    } else {
        30
    }
}

/// Whether `year` is a leap year.
pub fn is_leap_year(year: i32) -> (r: bool)
    ensures
        r == leap_year(year as int),
{
    year % 400 == 0 || (year % 4 == 0 && year % 100 != 0)
}

/// The number of days in `month` of `year`, counting every month but
/// February as 30 days flat.
pub fn days_in_month(year: i32, month: i32) -> (d: i32)
    ensures
        d == days_in_month_spec(year as int, month as int),
{
    match month {
        2 if is_leap_year(year) => 29,
        2 => 28,
        4 | 6 | 9 | 11 => 30,
        _ => 30,
    }
}

} // verus!
