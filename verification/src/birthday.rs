//! Birthdays: when the next one falls, and what the daily check does.
use vstd::prelude::*;

use crate::calendar::{
    day_number, days_from_ce, days_in_month, lemma_next_year_same_date, CivilDate,
    lemma_within_year, lemma_year_step, lemma_day_number_bounds, midnight_timestamp, valid_date, MAX_YEAR,
    SECONDS_PER_DAY, UNIX_EPOCH_DAY,
};
use crate::clock::utc_now;
use crate::record::{field_text, opt_str_view, Field};

verus! {

/// The seconds the daily check moves a birthday on by once it has been wished: 365 days.
pub const SECONDS_PER_YEAR: i64 = 31536000;

/// Why a birthday was refused.
#[derive(Debug, Clone, Copy, PartialEq, Eq, Structural)]
pub enum BirthdayError {
    /// The day is outside 1..=31 ("Incorrect day value.").
    IncorrectDay,
    /// The month is outside 1..=12 ("Incorrect month value.").
    IncorrectMonth,
}

impl BirthdayError {
    pub open spec fn spec_reply(self) -> Seq<char> {
        match self {
            BirthdayError::IncorrectDay => "Incorrect day value."@,
            BirthdayError::IncorrectMonth => "Incorrect month value."@,
        }
    }

    pub open spec fn spec_reason(self) -> Seq<char> {
        match self {
            BirthdayError::IncorrectDay => "Incorrect day value"@,
            BirthdayError::IncorrectMonth => "Incorrect month value"@,
        }
    }

    /// What the bot answers in the channel.
    pub fn reply(&self) -> (r: String)
        ensures
            r@ == self.spec_reply(),
    {
        match self {
            BirthdayError::IncorrectDay => String::from_str("Incorrect day value."),
            BirthdayError::IncorrectMonth => String::from_str("Incorrect month value."),
        }
    }

    /// The error the command ends with.
    pub fn reason(&self) -> (r: String)
        ensures
            r@ == self.spec_reason(),
    {
        match self {
            BirthdayError::IncorrectDay => String::from_str("Incorrect day value"),
            BirthdayError::IncorrectMonth => String::from_str("Incorrect month value"),
        }
    }
}

/// This year's `month`/`day` is already behind `today`.
pub open spec fn passed_this_year(today: CivilDate, month: int, day: int) -> bool {
    day_number(today.year as int, month, day) < today.number()
}

/// The year of the next `month`/`day` on or after `today`.
pub open spec fn birthday_year(today: CivilDate, month: int, day: int) -> int {
    if passed_this_year(today, month, day) {
        today.year + 1
    } else {
        today.year as int
    }
}

/// Both dates that the command may look at exist.
pub open spec fn birthday_exists(today: CivilDate, month: int, day: int) -> bool {
    &&& valid_date(today.year as int, month, day)
    &&& passed_this_year(today, month, day) ==> valid_date(today.year + 1, month, day)
}

/// The Unix timestamp of midnight UTC on the next `month`/`day` on or after `today`.
pub open spec fn next_birthday_timestamp(today: CivilDate, month: int, day: int) -> int {
    midnight_timestamp(day_number(birthday_year(today, month, day), month, day))
}

/// What `birthday` answers to `month`/`day` on `today`: an error for a day or a
/// month out of range, `None` where the date to store does not exist (such as
/// 30 February, or 29 February outside a leap year), and otherwise the next birthday.
pub open spec fn birthday_answer(today: CivilDate, month: int, day: int) -> Option<
    Result<int, BirthdayError>,
> {
    if !(1 <= day <= 31) {
        Some(Err(BirthdayError::IncorrectDay))
    } else if !(1 <= month <= 12) {
        Some(Err(BirthdayError::IncorrectMonth))
    } else if !birthday_exists(today, month, day) {
        None
    } else {
        Some(Ok(next_birthday_timestamp(today, month, day)))
    }
}

/// `r` is the machine form of the answer `s`.
pub open spec fn answer_matches(
    r: Option<Result<i64, BirthdayError>>,
    s: Option<Result<int, BirthdayError>>,
) -> bool {
    match s {
        None => r is None,
        Some(Ok(t)) => r == Some(Ok::<i64, BirthdayError>(t as i64)),
        Some(Err(e)) => r == Some(Err::<i64, BirthdayError>(e)),
    }
}

/// The next birthday on `month`/`day`, seen on `today`: midnight UTC of this year's
/// date, or of next year's where this year's is already past. `None` where that
/// date does not exist, where `NaiveDate::from_ymd_opt(..).expect(..)` gives up.
pub fn birthday_at(month: i32, day: i32, today: CivilDate) -> (r: Option<Result<i64, BirthdayError>>)
    requires
        today.valid(),
    ensures
        answer_matches(r, birthday_answer(today, month as int, day as int)),
{
    if !(day > 0 && day <= 31) {
        return Some(Err(BirthdayError::IncorrectDay));
    }
    if !(month > 0 && month <= 12) {
        return Some(Err(BirthdayError::IncorrectMonth));
    }
    let m = month as u32;
    let d = day as u32;
    proof {
        lemma_day_number_bounds(today.year as int, today.month as int, today.day as int);
    }
    let today_number = match days_from_ce(today.year, today.month, today.day) {
        Some(n) => n,
        None => {
            assert(false);
            return None;
        },
    };
    let this_year = match days_from_ce(today.year, m, d) {
        Some(n) => n,
        None => return None,
    };
    proof {
        lemma_day_number_bounds(today.year as int, month as int, day as int);
    }
    let number = if this_year < today_number {
        if today.year >= MAX_YEAR {
            return None;
        }
        match days_from_ce(today.year + 1, m, d) {
            Some(n) => n,
            None => return None,
        }
    } else {
        this_year
    };
    proof {
        lemma_next_birthday_window(today, month as int, day as int);
        lemma_day_number_bounds(
            birthday_year(today, month as int, day as int),
            month as int,
            day as int,
        );
    }
    Some(Ok((number as i64 - UNIX_EPOCH_DAY) * SECONDS_PER_DAY))
}

/// No year has a longer month than a leap year.
proof fn lemma_longest_months(y: int, m: int)
    ensures
        days_in_month(y, m) <= days_in_month(2000, m),
{
    assert(2000int % 400 == 0);
}

/// `birthday_at` read at the current UTC date. The clock is read only once the day
/// and the month are in range.
pub fn birthday(month: i32, day: i32) -> (r: Option<Result<i64, BirthdayError>>)
    ensures
        exists|today: CivilDate|
            today.valid() && answer_matches(
                r,
                #[trigger] birthday_answer(today, month as int, day as int),
            ),
        (r == Some(Err::<i64, BirthdayError>(BirthdayError::IncorrectDay))) <==> !(1 <= day
            <= 31),
        (r == Some(Err::<i64, BirthdayError>(BirthdayError::IncorrectMonth))) <==> (1 <= day
            <= 31 && !(1 <= month <= 12)),
        1 <= day <= 31 && 1 <= month <= 12 && day > days_in_month(2000, month as int) ==> r
            is None,
{
    if !(day > 0 && day <= 31) || !(month > 0 && month <= 12) {
        let epoch = CivilDate { year: 1970, month: 1, day: 1 };
        let r = birthday_at(month, day, epoch);
        assert(answer_matches(r, birthday_answer(epoch, month as int, day as int)));
        return r;
    }
    let today = utc_now().today;
    let r = birthday_at(month, day, today);
    proof {
        lemma_longest_months(today.year as int, month as int);
        assert(answer_matches(r, birthday_answer(today, month as int, day as int)));
    }
    r
}

/// The next birthday falls on or after today, less than 366 days later.
pub proof fn lemma_next_birthday_window(today: CivilDate, month: int, day: int)
    requires
        today.valid(),
        birthday_exists(today, month, day),
    ensures
        midnight_timestamp(today.number()) <= next_birthday_timestamp(today, month, day),
        next_birthday_timestamp(today, month, day) < midnight_timestamp(today.number()) + 366
            * SECONDS_PER_DAY,
        valid_date(birthday_year(today, month, day), month, day),
{
    let y = today.year as int;
    lemma_within_year(y, today.month as int, today.day as int);
    lemma_within_year(y, month, day);
    if passed_this_year(today, month, day) {
        lemma_next_year_same_date(y, month, day);
        lemma_within_year(y + 1, month, day);
        lemma_year_step(y);
    }
}

/// What the daily birthday check does with one stored birthday.
#[derive(Debug)]
pub enum BirthdayStep {
    /// No date: "Incorrect date value!".
    MissingDate,
    /// Not today yet: left alone.
    NotDue,
    /// No user: "Incorrect user value!".
    MissingUser,
    /// Due: post `greeting`, then store the birthday again one year after `date`.
    Celebrate { greeting: String, date: i64 },
}

/// The greeting posted for `user_id`.
pub open spec fn greeting_text(user_id: Option<Seq<char>>) -> Seq<char> {
    "Happy birthday "@ + match user_id {
        Some(u) => u,
        None => "error"@,
    }
}

/// The greeting posted for a user (`"error"` standing in where there is none).
pub fn birthday_greeting(user_id: Option<&str>) -> (r: String)
    ensures
        r@ == greeting_text(opt_str_view(user_id)),
{
    let mut r = String::from_str("Happy birthday ");
    match user_id {
        Some(u) => r.append(u),
        None => r.append("error"),
    }
    r
}

/// The date a wished birthday is stored under again: 365 days on.
pub fn advance_birthday(date: i64) -> (r: i64)
    requires
        date + SECONDS_PER_YEAR <= i64::MAX,
    ensures
        r == date + SECONDS_PER_YEAR,
{
    date + SECONDS_PER_YEAR
}

/// Decides what the daily birthday check does with a stored birthday whose fields
/// are `date` and `user`, at the Unix time `now`.
pub fn check_birthdays(date: &Field, user: &Field, now: i64) -> (r: BirthdayStep)
    requires
        *date is Missing || *date is Int64,
    ensures
        match *date {
            Field::Int64(d) => if d > now {
                r is NotDue
            } else if *user is Missing {
                r is MissingUser
            } else {
                r matches BirthdayStep::Celebrate { greeting, date: when } && when == d
                    && greeting@ == greeting_text(field_text(*user))
            },
            _ => r is MissingDate,
        },
{
    match date {
        Field::Int64(d) => {
            if *d > now {
                BirthdayStep::NotDue
            } else {
                match user {
                    Field::Missing => BirthdayStep::MissingUser,
                    Field::Text(s) => BirthdayStep::Celebrate {
                        greeting: birthday_greeting(Some(s.as_str())),
                        date: *d,
                    },
                    _ => BirthdayStep::Celebrate { greeting: birthday_greeting(None), date: *d },
                }
            }
        },
        _ => BirthdayStep::MissingDate,
    }
}

/// What happened to a due birthday that the daily check is handling.
#[derive(Debug, Clone, Copy, PartialEq, Eq, Structural)]
pub enum BirthdayEvent {
    /// Posting the greeting succeeded (`sent`) or failed; `has_id` tells whether the
    /// stored entry has an id to delete it by.
    Greeted { sent: bool, has_id: bool },
    /// Deleting the entry stored under `date` succeeded (`deleted`) or failed.
    Deleted { deleted: bool, date: i64 },
    /// Storing the birthday again succeeded (`stored`) or failed.
    Restored { stored: bool },
}

/// What the daily check does next.
#[derive(Debug, Clone, Copy, PartialEq, Eq, Structural)]
pub enum BirthdayAction {
    /// Delete the entry by its id.
    Delete,
    /// Store the birthday again under `next_date` (the deletion is reported first).
    Restore { next_date: i64 },
    /// Print the posting error, and go on to the next entry.
    ReportSendFailure,
    /// Print "Failed to delete birthday: ..." to stderr, and go on to the next entry.
    ReportDeleteFailure,
    /// Print "Error adding one year to past birthday: ..." to stderr, and end the
    /// check with that error.
    Stop,
    /// Go on to the next entry.
    NextEntry,
}

/// The daily check's answer to `event`: an entry is deleted once its greeting was
/// posted, stored again 365 days on once it was deleted, and a failure to store it
/// again ends the check.
pub open spec fn birthday_action(event: BirthdayEvent) -> BirthdayAction {
    match event {
        BirthdayEvent::Greeted { sent, has_id } => if !sent {
            BirthdayAction::ReportSendFailure
        } else if has_id {
            BirthdayAction::Delete
        } else {
            BirthdayAction::NextEntry
        },
        BirthdayEvent::Deleted { deleted, date } => if deleted {
            BirthdayAction::Restore { next_date: (date + SECONDS_PER_YEAR) as i64 }
        } else {
            BirthdayAction::ReportDeleteFailure
        },
        BirthdayEvent::Restored { stored } => if stored {
            BirthdayAction::NextEntry
        } else {
            BirthdayAction::Stop
        },
    }
}

/// Decides what the daily check does after `event`.
pub fn after_birthday_event(event: BirthdayEvent) -> (r: BirthdayAction)
    requires
        event matches BirthdayEvent::Deleted { deleted: true, date } ==> date + SECONDS_PER_YEAR
            <= i64::MAX,
    ensures
        r == birthday_action(event),
{
    match event {
        BirthdayEvent::Greeted { sent, has_id } => {
            if !sent {
                BirthdayAction::ReportSendFailure
            } else if has_id {
                BirthdayAction::Delete
            } else {
                BirthdayAction::NextEntry
            }
        },
        BirthdayEvent::Deleted { deleted, date } => {
            if deleted {
                BirthdayAction::Restore { next_date: advance_birthday(date) }
            } else {
                BirthdayAction::ReportDeleteFailure
            }
        },
        BirthdayEvent::Restored { stored } => {
            if stored {
                BirthdayAction::NextEntry
            } else {
                BirthdayAction::Stop
            }
        },
    }
}

/// A birthday set on `today` is stored at a midnight UTC that falls on `month`/`day`
/// of this year or the next, on or after today's midnight and less than 366 days
/// after it.
pub proof fn lemma_stored_birthday_is_next(
    r: Option<Result<i64, BirthdayError>>,
    today: CivilDate,
    month: int,
    day: int,
)
    requires
        today.valid(),
        answer_matches(r, birthday_answer(today, month, day)),
        r matches Some(Ok(_)),
    ensures
        r matches Some(Ok(ts)) && midnight_timestamp(today.number()) <= ts
            < midnight_timestamp(today.number()) + 366 * SECONDS_PER_DAY && ts % SECONDS_PER_DAY
            == 0 && (ts == midnight_timestamp(day_number(today.year as int, month, day))
            || ts == midnight_timestamp(day_number(today.year + 1, month, day))),
        r matches Some(Ok(ts)) && ts == midnight_timestamp(day_number(today.year as int, month, day))
            ==> day_number(today.year as int, month, day) >= today.number(),
{
    lemma_next_birthday_window(today, month, day);
    lemma_day_number_bounds(birthday_year(today, month, day), month, day);
    let n = day_number(birthday_year(today, month, day), month, day);
    vstd::arithmetic::div_mod::lemma_mod_multiples_basic(n - UNIX_EPOCH_DAY, 86400);
}

} // verus!
