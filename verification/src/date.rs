//! Calendar dates for the output's date column: validity of a
//! (year, month, day) triple, and its day number since the Unix epoch.

use vstd::prelude::*;
use chrono::Datelike;

verus! {

/// Whether `y` is a leap year of the proleptic Gregorian calendar.
pub open spec fn is_leap_year(y: int) -> bool {
    (y % 4 == 0 && y % 100 != 0) || y % 400 == 0
}

/// How many days month `m` of year `y` has.
pub open spec fn days_in_month(y: int, m: int) -> int {
    if m == 2 {
        if is_leap_year(y) {
            29
        } else {
            28
        }
    } else if m == 4 || m == 6 || m == 9 || m == 11 {
        30
    } else {
        31
    }
}

/// Whether `(y, m, d)` names a real calendar date.
pub open spec fn valid_date(y: int, m: int, d: int) -> bool {
    1 <= m <= 12 && 1 <= d <= days_in_month(y, m)
}

/// The day number of the date `(y, m, d)` in the proleptic Gregorian
/// calendar, counting 0001-01-01 as day 1 — the count chrono's
/// `num_days_from_ce` computes, a function of the date alone.
pub uninterp spec fn days_from_ce(y: int, m: int, d: int) -> int;

/// The day number of `(y, m, d)` counted from the Unix epoch: chrono
/// documents 1970-01-01 as day 719163 of the common era.
pub open spec fn date32_of(y: int, m: int, d: int) -> int {
    days_from_ce(y, m, d) - 719_163
}

/// Relies on chrono's `NaiveDate::from_ymd_opt` and `num_days_from_ce`.
/// For years well inside chrono's range — its documentation admits about
/// a quarter million years either way — `from_ymd_opt` returns a date
/// exactly when the triple is a real calendar date, and `num_days_from_ce`
/// counts the days of the proleptic Gregorian calendar from 0001-01-01 as
/// day 1, so for the admitted years it lies between -366 (year zero) and
/// 24 million (year 65535).
#[verifier::external_body]
fn days_from_ce_opt(y: i32, m: u32, d: u32) -> (r: Option<i32>)
    requires
        0 <= y <= 65535,
    ensures
        r is Some <==> valid_date(y as int, m as int, d as int),
        r matches Some(n) ==> n == days_from_ce(y as int, m as int, d as int) && -366 <= n
            <= 24_000_000,
{
    match chrono::NaiveDate::from_ymd_opt(y, m, d) {
        Some(date) => Some(date.num_days_from_ce()),
        None => None,
    }
}

/// The value of the output's date column — days since 1970-01-01 — for
/// the date `(y, m, d)`, or `None` where no such calendar date exists.
pub fn date32_from_ymd(y: u16, m: u32, d: u32) -> (r: Option<i32>)
    ensures
        r is Some <==> valid_date(y as int, m as int, d as int),
        r matches Some(n) ==> n == date32_of(y as int, m as int, d as int),
{
    match days_from_ce_opt(y as i32, m, d) {
        Some(n) => Some(n - 719_163),
        None => None,
    }
}

} // verus!
