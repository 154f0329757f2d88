//! Reading the clock.
use chrono::Datelike;
use vstd::prelude::*;

use crate::calendar::{CivilDate, midnight_timestamp, SECONDS_PER_DAY};

verus! {

/// The latest Unix timestamp chrono's `DateTime<Utc>` reaches: the last second of
/// 262142-12-31.
pub const MAX_UTC_TIMESTAMP: i64 = 8210266876799;

/// The current time in UTC.
#[derive(Debug, Clone, Copy, PartialEq, Eq, Structural)]
pub struct UtcNow {
    /// Whole seconds since 1970-01-01T00:00:00Z.
    pub timestamp: i64,
    /// The UTC calendar date of `timestamp`.
    pub today: CivilDate,
}

/// Reads `chrono::Utc::now()` and takes its timestamp and its UTC date. What the
/// clock reads is left open; claimed is only what chrono's source shows of every
/// value it returns: `Utc::now` panics on a clock before 1970, so the timestamp is
/// not negative, every `DateTime` lies within chrono's range, and the date is the
/// UTC day that holds the timestamp.
#[verifier::external_body]
pub fn utc_now() -> (now: UtcNow)
    ensures
        0 <= now.timestamp <= MAX_UTC_TIMESTAMP,
        now.today.valid(),
        midnight_timestamp(now.today.number()) <= now.timestamp < midnight_timestamp(
            now.today.number(),
        ) + SECONDS_PER_DAY,
{
    let now = chrono::Utc::now();
    let date = now.date_naive();
    UtcNow {
        timestamp: now.timestamp(),
        today: CivilDate { year: date.year(), month: date.month(), day: date.day() },
    }
}

} // verus!
