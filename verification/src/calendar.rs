//! The proleptic Gregorian calendar, as chrono counts it.
use chrono::Datelike;
use vstd::prelude::*;

verus! {

/// The earliest year chrono's dates reach.
pub const MIN_YEAR: i32 = -262143;

/// The latest year chrono's dates reach.
pub const MAX_YEAR: i32 = 262142;

/// The day number (from 0001-01-01 as day 1) of 1970-01-01.
pub const UNIX_EPOCH_DAY: i64 = 719163;

/// Seconds in a day.
pub const SECONDS_PER_DAY: i64 = 86400;

/// Leap years of the Gregorian calendar.
pub open spec fn is_leap_year(y: int) -> bool {
    y % 4 == 0 && (y % 100 != 0 || y % 400 == 0)
}

/// Days in the year `y`.
pub open spec fn days_in_year(y: int) -> int {
    if is_leap_year(y) {
        366
    } else {
        365
    }
}

/// Days in month `m` of year `y`.
pub open spec fn days_in_month(y: int, m: int) -> int {
    if m == 2 {
        if is_leap_year(y) {
            29
        } else {
            28
        }
    } else if m == 4 || m == 6 || m == 9 || m == 11 {
        30
    } else {
        31
    }
}

/// Days of the year `y` before the first of month `m`.
pub open spec fn days_before_month(y: int, m: int) -> int
    decreases m,
{
    if m <= 1 {
        0
    } else {
        days_before_month(y, m - 1) + days_in_month(y, m - 1)
    }
}

/// Days before the first of January of year `y`, counted from 0001-01-01.
pub open spec fn days_before_year(y: int) -> int {
    let p = y - 1;
    365 * p + p / 4 - p / 100 + p / 400
}

/// The day number of a date, with 0001-01-01 as day 1.
pub open spec fn day_number(y: int, m: int, d: int) -> int {
    days_before_year(y) + days_before_month(y, m) + d
}

/// `(y, m, d)` names a day that chrono can represent.
pub open spec fn valid_date(y: int, m: int, d: int) -> bool {
    &&& MIN_YEAR <= y <= MAX_YEAR
    &&& 1 <= m <= 12
    &&& 1 <= d <= days_in_month(y, m)
}

/// The Unix timestamp of midnight UTC at the start of day number `n`.
pub open spec fn midnight_timestamp(n: int) -> int {
    (n - UNIX_EPOCH_DAY) * SECONDS_PER_DAY
}

/// A calendar date.
#[derive(Debug, Clone, Copy, PartialEq, Eq, Structural)]
pub struct CivilDate {
    pub year: i32,
    pub month: u32,
    pub day: u32,
}

impl CivilDate {
    /// The date exists and chrono can represent it.
    pub open spec fn valid(self) -> bool {
        valid_date(self.year as int, self.month as int, self.day as int)
    }

    /// The date's day number, with 0001-01-01 as day 1.
    pub open spec fn number(self) -> int {
        day_number(self.year as int, self.month as int, self.day as int)
    }
}

/// Asks chrono for the day number of a date: `NaiveDate::from_ymd_opt` builds the
/// date (`None` where the date does not exist or the year is out of range) and
/// `Datelike::num_days_from_ce` counts the days of the proleptic Gregorian calendar
/// with 0001-01-01 as day 1. Claimed: `Some` exactly for valid dates, holding that count.
#[verifier::external_body]
pub fn days_from_ce(year: i32, month: u32, day: u32) -> (r: Option<i32>)
    ensures
        r == (if valid_date(year as int, month as int, day as int) {
            Some(day_number(year as int, month as int, day as int) as i32)
        } else {
            None
        }),
{
    match chrono::NaiveDate::from_ymd_opt(year, month, day) {
        Some(date) => Some(date.num_days_from_ce()),
        None => None,
    }
}

/// The day numbers of chrono's dates fit comfortably in an `i32`.
pub proof fn lemma_day_number_bounds(y: int, m: int, d: int)
    requires
        valid_date(y, m, d),
    ensures
        -100_000_000 <= day_number(y, m, d) <= 100_000_000,
{
    let p = y - 1;
    vstd::arithmetic::div_mod::lemma_fundamental_div_mod(p, 4);
    vstd::arithmetic::div_mod::lemma_fundamental_div_mod(p, 100);
    vstd::arithmetic::div_mod::lemma_fundamental_div_mod(p, 400);
    vstd::arithmetic::div_mod::lemma_mod_bound(p, 4);
    vstd::arithmetic::div_mod::lemma_mod_bound(p, 100);
    vstd::arithmetic::div_mod::lemma_mod_bound(p, 400);
    assert(-70_000 <= p / 4 <= 70_000);
    assert(-3_000 <= p / 100 <= 3_000);
    assert(-1_000 <= p / 400 <= 1_000);
    lemma_within_year(y, m, d);
}

/// For `k > 0`, the quotient by `k` rises by one exactly at multiples of `k`.
proof fn lemma_div_step(y: int, k: int)
    requires
        k > 0,
    ensures
        y / k - (y - 1) / k == (if y % k == 0 { 1int } else { 0int }),
{
    let q = y / k;
    let r = y % k;
    vstd::arithmetic::div_mod::lemma_fundamental_div_mod(y, k);
    vstd::arithmetic::div_mod::lemma_mod_bound(y, k);
    assert(k * q == q * k) by (nonlinear_arith);
    if r == 0 {
        assert((q - 1) * k == q * k - k) by (nonlinear_arith);
        vstd::arithmetic::div_mod::lemma_fundamental_div_mod_converse(y - 1, k, q - 1, k - 1);
    } else {
        vstd::arithmetic::div_mod::lemma_fundamental_div_mod_converse(y - 1, k, q, r - 1);
    }
}

/// Multiples of 400 are multiples of 100, and multiples of 100 are multiples of 4.
proof fn lemma_multiples(y: int)
    ensures
        y % 400 == 0 ==> y % 100 == 0,
        y % 100 == 0 ==> y % 4 == 0,
{
    vstd::arithmetic::div_mod::lemma_fundamental_div_mod(y, 400);
    vstd::arithmetic::div_mod::lemma_fundamental_div_mod(y, 100);
    if y % 400 == 0 {
        vstd::arithmetic::div_mod::lemma_fundamental_div_mod_converse(y, 100, 4 * (y / 400), 0);
    }
    if y % 100 == 0 {
        vstd::arithmetic::div_mod::lemma_fundamental_div_mod_converse(y, 4, 25 * (y / 100), 0);
    }
}

/// A year holds `days_in_year` days.
pub proof fn lemma_year_step(y: int)
    ensures
        days_before_year(y + 1) == days_before_year(y) + days_in_year(y),
{
    lemma_div_step(y, 4);
    lemma_div_step(y, 100);
    lemma_div_step(y, 400);
    lemma_multiples(y);
}

/// The days before each month, month by month.
pub proof fn lemma_days_before_month(y: int)
    ensures
        days_before_month(y, 1) == 0,
        days_before_month(y, 2) == 31,
        days_before_month(y, 3) == 59 + (if is_leap_year(y) { 1int } else { 0int }),
        days_before_month(y, 12) + 31 == days_in_year(y),
        forall|m: int|
            2 < m <= 12 ==> #[trigger] days_before_month(y, m) == days_before_month(0, m) - 1
                + (if is_leap_year(y) { 1int } else { 0int }),
        forall|m: int| 1 <= m <= 12 ==> #[trigger] days_before_month(y, m) + days_in_month(y, m)
            <= days_in_year(y),
{
    reveal_with_fuel(days_before_month, 13);
    assert(is_leap_year(0)) by {
        assert(0int % 4 == 0);
        assert(0int % 400 == 0);
    }
}

/// A valid date falls inside its year.
pub proof fn lemma_within_year(y: int, m: int, d: int)
    requires
        valid_date(y, m, d),
    ensures
        days_before_year(y) < day_number(y, m, d) <= days_before_year(y) + days_in_year(y),
{
    lemma_days_before_month(y);
    assert(days_before_month(y, m) + days_in_month(y, m) <= days_in_year(y));
    assert(days_before_month(y, m) >= 0) by {
        reveal_with_fuel(days_before_month, 13);
    }
}

/// The same date one year later is 365 or 366 days later.
pub proof fn lemma_next_year_same_date(y: int, m: int, d: int)
    requires
        valid_date(y, m, d),
        valid_date(y + 1, m, d),
    ensures
        365 <= day_number(y + 1, m, d) - day_number(y, m, d) <= 366,
{
    lemma_year_step(y);
    lemma_days_before_month(y);
    lemma_days_before_month(y + 1);
}

} // verus!
