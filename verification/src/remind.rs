//! Reminders: reading a delay such as `10m`, scheduling, and delivering.
use vstd::prelude::*;

use crate::clock::{utc_now, MAX_UTC_TIMESTAMP};
use crate::decimal::{
    ascii_digits_of, decimal, digit_value, digits_value, is_ascii_digit, lemma_decimal_is_digits,
    lemma_decimal_roundtrip,
};
use crate::record::{field_as_str, field_text, opt_str_view, opt_string_view, Field};

verus! {

/// The longest delay chrono's `TimeDelta` holds, in whole seconds (`i64::MAX / 1000`).
pub const MAX_DELAY_SECONDS: i64 = 9223372036854775;

/// Whether `c` has one of Unicode's general categories for numbers (as `char::is_numeric`
/// answers).
pub uninterp spec fn char_is_numeric(c: char) -> bool;

/// Whether `char::is_numeric` holds of `c`: within ASCII exactly the digits
/// `'0'..='9'`, beyond it the named Unicode classification.
pub open spec fn numeric_char(c: char) -> bool {
    if (c as u32) < 128 {
        is_ascii_digit(c)
    } else {
        char_is_numeric(c)
    }
}

/// Calls `char::is_numeric`. Its result is named `char_is_numeric`; besides, within
/// ASCII the characters of the numeric categories of the Unicode Character Database,
/// to which the method's documentation refers, are exactly `'0'..='9'`.
#[verifier::external_body]
fn is_numeric(c: char) -> (r: bool)
    ensures
        r == char_is_numeric(c),
        r == numeric_char(c),
{
    c.is_numeric()
}

/// The numeric characters of `s`, in order.
pub open spec fn numeric_part(s: Seq<char>) -> Seq<char> {
    s.filter(|c: char| numeric_char(c))
}

/// The other characters of `s`, in order: the unit of a delay.
pub open spec fn unit_part(s: Seq<char>) -> Seq<char> {
    s.filter(|c: char| !numeric_char(c))
}

pub open spec fn all_ascii_digits(s: Seq<char>) -> bool {
    forall|i: int| 0 <= i < s.len() ==> is_ascii_digit(#[trigger] s[i])
}

/// `s` reads as an `i64` in decimal (it holds no sign, as no sign is numeric).
pub open spec fn parses_as_i64(s: Seq<char>) -> bool {
    &&& s.len() > 0
    &&& all_ascii_digits(s)
    &&& digits_value(s) <= i64::MAX
}

/// Seconds in one of the units `s`, `m`, `h`, `d`, `w`.
pub open spec fn unit_seconds(unit: Seq<char>) -> Option<int> {
    if unit == seq!['s'] {
        Some(1)
    } else if unit == seq!['m'] {
        Some(60)
    } else if unit == seq!['h'] {
        Some(3600)
    } else if unit == seq!['d'] {
        Some(86400)
    } else if unit == seq!['w'] {
        Some(604800)
    } else {
        None
    }
}

/// The count and the seconds per unit that a delay such as `10m` names.
pub open spec fn delay_parts(s: Seq<char>) -> Option<(int, int)> {
    if parses_as_i64(numeric_part(s)) {
        match unit_seconds(unit_part(s)) {
            Some(k) => Some((digits_value(numeric_part(s)), k)),
            None => None,
        }
    } else {
        None
    }
}

/// The length in seconds of the delay `s`, where `s` names one.
pub open spec fn delay_seconds(s: Seq<char>) -> Option<int> {
    match delay_parts(s) {
        Some((n, k)) => Some(n * k),
        None => None,
    }
}

/// Where `s` names a delay, chrono can hold it.
pub open spec fn delay_in_range(s: Seq<char>) -> bool {
    match delay_seconds(s) {
        Some(t) => t <= MAX_DELAY_SECONDS,
        None => true,
    }
}

proof fn lemma_digits_value_push(s: Seq<char>, c: char)
    ensures
        digits_value(s.push(c)) == digits_value(s) * 10 + digit_value(c),
{
    assert(s.push(c).drop_last() =~= s);
}

proof fn lemma_digits_value_nonneg(s: Seq<char>)
    requires
        all_ascii_digits(s),
    ensures
        digits_value(s) >= 0,
    decreases s.len(),
{
    if s.len() > 0 {
        assert(all_ascii_digits(s.drop_last()));
        lemma_digits_value_nonneg(s.drop_last());
        assert(is_ascii_digit(s[s.len() - 1]));
    }
}

/// Reads the count of a delay from its numeric characters.
fn parse_count(ds: &Vec<char>) -> (r: Option<i64>)
    ensures
        r == (if parses_as_i64(ds@) {
            Some(digits_value(ds@) as i64)
        } else {
            None
        }),
{
    if ds.len() == 0 {
        return None;
    }
    let mut value: i64 = 0;
    let mut i: usize = 0;
    while i < ds.len()
        invariant
            i <= ds.len(),
            all_ascii_digits(ds@.take(i as int)),
            value == digits_value(ds@.take(i as int)),
            0 <= value,
        decreases ds.len() - i,
    {
        let c = ds[i];
        proof {
            assert(ds@.take(i + 1) =~= ds@.take(i as int).push(c));
            lemma_digits_value_push(ds@.take(i as int), c);
        }
        if !('0' <= c && c <= '9') {
            proof {
                assert(!is_ascii_digit(ds@[i as int]));
            }
            return None;
        }
        let d = (c as u32 - '0' as u32) as i64;
        let next = match value.checked_mul(10) {
            Some(v) => v.checked_add(d),
            None => None,
        };
        match next {
            Some(v) => {
                value = v;
            },
            None => {
                proof {
                    lemma_digits_tail_bound(ds@, (i + 1) as int);
                }
                return None;
            },
        }
        i = i + 1;
    }
    proof {
        assert(ds@.take(ds.len() as int) =~= ds@);
    }
    Some(value)
}

/// Once a prefix of digits is too large, the whole string is too large.
proof fn lemma_digits_tail_bound(s: Seq<char>, k: int)
    requires
        0 <= k <= s.len(),
        all_ascii_digits(s.take(k)),
        digits_value(s.take(k)) > i64::MAX,
    ensures
        !parses_as_i64(s),
    decreases s.len() - k,
{
    if k < s.len() && is_ascii_digit(s[k]) {
        assert(s.take(k + 1) =~= s.take(k).push(s[k]));
        lemma_digits_value_push(s.take(k), s[k]);
        assert(all_ascii_digits(s.take(k + 1)));
        lemma_digits_tail_bound(s, k + 1);
    } else if k == s.len() {
        assert(s.take(k) =~= s);
    }
}

/// Splits a delay into its count and the seconds per unit.
fn delay_parts_of(duration_string: &str) -> (r: Option<(i64, i64)>)
    ensures
        match delay_parts(duration_string@) {
            Some((n, k)) => r == Some((n as i64, k as i64)),
            None => r is None,
        },
        delay_parts(duration_string@) matches Some((n, k)) ==> 0 <= n <= i64::MAX && 1 <= k
            <= 604800,
{
    proof {
        if delay_parts(duration_string@) is Some {
            lemma_digits_value_nonneg(numeric_part(duration_string@));
        }
    }
    let ghost whole = duration_string@;
    let mut numeric: Vec<char> = Vec::new();
    let mut unit: Vec<char> = Vec::new();
    for c in it: duration_string.chars()
        invariant
            it.seq() == whole,
            numeric@ == numeric_part(whole.take(it.index())),
            unit@ == unit_part(whole.take(it.index())),
    {
        proof {
            assert(whole.take(it.index() + 1) =~= whole.take(it.index()).push(c));
            whole.take(it.index()).lemma_filter_push(c, |c: char| numeric_char(c));
            whole.take(it.index()).lemma_filter_push(c, |c: char| !numeric_char(c));
        }
        if is_numeric(c) {
            numeric.push(c);
        } else {
            unit.push(c);
        }
    }
    proof {
        assert(whole.take(whole.len() as int) =~= whole);
    }
    let count = match parse_count(&numeric) {
        Some(n) => n,
        None => return None,
    };
    let per_unit: i64 = if unit.len() == 1 {
        let u = unit[0];
        proof {
            assert(unit@ =~= seq![u]);
        }
        if u == 's' {
            1
        } else if u == 'm' {
            60
        } else if u == 'h' {
            3600
        } else if u == 'd' {
            86400
        } else if u == 'w' {
            604800
        } else {
            return None;
        }
    } else {
        proof {
            assert(unit@.len() != 1);
            assert(unit@ != seq!['s'] && unit@ != seq!['m'] && unit@ != seq!['h']);
            assert(unit@ != seq!['d'] && unit@ != seq!['w']);
        }
        return None;
    };
    Some((count, per_unit))
}

/// Reads a delay such as `10m`: the numeric characters give the count, the others
/// the unit (`s`, `m`, `h`, `d` or `w`). Gives its length in seconds, or `None`
/// where the count does not read as an `i64` or the unit is none of these.
pub fn parse_duration_string(duration_string: &str) -> (r: Option<i64>)
    requires
        delay_in_range(duration_string@),
    ensures
        match delay_seconds(duration_string@) {
            Some(t) => r == Some(t as i64),
            None => r is None,
        },
        delay_seconds(duration_string@) matches Some(t) ==> 0 <= t <= MAX_DELAY_SECONDS,
{
    proof {
        lemma_delay_fits(duration_string@);
    }
    match delay_parts_of(duration_string) {
        Some((n, k)) => {
            proof {
                lemma_delay_fits(duration_string@);
            }
            Some(n * k)
        },
        None => None,
    }
}

/// A delay that chrono can hold is a product that fits in an `i64`.
proof fn lemma_delay_fits(s: Seq<char>)
    requires
        delay_in_range(s),
    ensures
        delay_parts(s) matches Some((n, k)) ==> 0 <= n && 1 <= k && 0 <= n * k
            <= MAX_DELAY_SECONDS,
{
    if let Some((n, k)) = delay_parts(s) {
        lemma_digits_value_nonneg(numeric_part(s));
        assert(0 <= n * k) by (nonlinear_arith)
            requires
                0 <= n,
                1 <= k,
        ;
    }
}

/// What `remind` answers.
#[derive(Debug)]
pub enum RemindReply {
    /// The reminder falls due at `date` (a Unix timestamp); `response` confirms it.
    Scheduled { date: i64, response: String },
    /// The delay did not read; `response` says how to write one.
    Rejected { response: String },
}

/// The confirmation of a reminder.
pub open spec fn scheduled_text(message: Seq<char>, wait_for: Seq<char>) -> Seq<char> {
    "You will be reminded of '"@ + message + "' in "@ + wait_for
}

/// The answer to a delay that does not read.
pub open spec fn rejected_text() -> Seq<char> {
    "There was an error adding your reminder. Please check that you set the time correctly. The valid durations are s, m, h, d, w."@
}

/// `r` is the answer to `message` after `wait_for`, asked at the Unix time `now`:
/// rejected where the delay does not read, `None` where chrono cannot hold the due
/// time (the delay is longer than a `TimeDelta`, or ends after chrono's last date),
/// and otherwise due at `now` plus the delay.
pub open spec fn remind_answer_is(
    r: Option<RemindReply>,
    message: Seq<char>,
    wait_for: Seq<char>,
    now: int,
) -> bool {
    match delay_seconds(wait_for) {
        None => r matches Some(RemindReply::Rejected { response }) && response@ == rejected_text(),
        Some(t) => if t > MAX_DELAY_SECONDS || now + t > MAX_UTC_TIMESTAMP {
            r is None
        } else {
            r matches Some(RemindReply::Scheduled { date, response }) && date == now + t
                && response@ == scheduled_text(message, wait_for)
        },
    }
}

fn rejected_reply() -> (r: RemindReply)
    ensures
        r matches RemindReply::Rejected { response } && response@ == rejected_text(),
{
    RemindReply::Rejected {
        response: String::from_str(
            "There was an error adding your reminder. Please check that you set the time correctly. The valid durations are s, m, h, d, w.",
        ),
    }
}

fn scheduled_reply(message: &str, wait_for: &str, date: i64) -> (r: RemindReply)
    ensures
        r matches RemindReply::Scheduled { date: d, response } && d == date && response@
            == scheduled_text(message@, wait_for@),
{
    let mut response = String::from_str("You will be reminded of '");
    response.append(message);
    response.append("' in ");
    response.append(wait_for);
    RemindReply::Scheduled { date, response }
}

/// Schedules `message` after the delay `wait_for`, asked at the Unix time `now`:
/// due at `now` plus the delay, rejected where the delay does not read, or `None`
/// where chrono could not hold the due time.
pub fn remind_at(message: &str, wait_for: &str, now: i64) -> (r: Option<RemindReply>)
    ensures
        remind_answer_is(r, message@, wait_for@, now as int),
{
    match delay_parts_of(wait_for) {
        None => Some(rejected_reply()),
        Some((n, k)) => {
            if n > MAX_DELAY_SECONDS / k {
                proof {
                    assert(n * k > MAX_DELAY_SECONDS) by (nonlinear_arith)
                        requires
                            n > MAX_DELAY_SECONDS / k,
                            k >= 1,
                    ;
                }
                return None;
            }
            proof {
                assert(n * k <= MAX_DELAY_SECONDS) by (nonlinear_arith)
                    requires
                        n <= MAX_DELAY_SECONDS / k,
                        k >= 1,
                ;
                lemma_digits_value_nonneg(numeric_part(wait_for@));
                assert(0 <= n * k) by (nonlinear_arith)
                    requires
                        0 <= n,
                        1 <= k,
                ;
            }
            let t = n * k;
            if now > MAX_UTC_TIMESTAMP - t {
                return None;
            }
            Some(scheduled_reply(message, wait_for, now + t))
        },
    }
}

/// `remind_at` asked at the current time. The clock is read only once the delay has
/// read and fits in a `TimeDelta`.
pub fn remind(message: &str, wait_for: &str) -> (r: Option<RemindReply>)
    ensures
        exists|now: int|
            0 <= now <= MAX_UTC_TIMESTAMP && #[trigger] remind_answer_is(
                r,
                message@,
                wait_for@,
                now,
            ),
{
    match delay_parts_of(wait_for) {
        None => {
            let r = Some(rejected_reply());
            assert(remind_answer_is(r, message@, wait_for@, 0));
            r
        },
        Some((n, k)) => {
            if n > MAX_DELAY_SECONDS / k {
                proof {
                    assert(n * k > MAX_DELAY_SECONDS) by (nonlinear_arith)
                        requires
                            n > MAX_DELAY_SECONDS / k,
                            k >= 1,
                    ;
                    assert(remind_answer_is(None, message@, wait_for@, 0));
                }
                return None;
            }
            let now = utc_now().timestamp;
            remind_at(message, wait_for, now)
        },
    }
}

/// Why a reminder could not be addressed.
#[derive(Debug, Clone, Copy, PartialEq, Eq, Structural)]
pub enum RecipientError {
    /// The entry names no user ("User ID not provided").
    NotProvided,
    /// The user holds no digit: an empty number.
    NoDigits,
    /// The user's digits make a number larger than `u64::MAX`.
    TooLarge,
}

impl RecipientError {
    pub open spec fn spec_message(self) -> Seq<char> {
        match self {
            RecipientError::NotProvided => "User ID not provided"@,
            RecipientError::NoDigits => "cannot parse integer from empty string"@,
            RecipientError::TooLarge => "number too large to fit in target type"@,
        }
    }

    /// The line the reminder loop prints for this error (the last two as Rust's
    /// integer parser words them).
    pub fn message(&self) -> (r: String)
        ensures
            r@ == self.spec_message(),
    {
        match self {
            RecipientError::NotProvided => String::from_str("User ID not provided"),
            RecipientError::NoDigits => String::from_str("cannot parse integer from empty string"),
            RecipientError::TooLarge => String::from_str("number too large to fit in target type"),
        }
    }
}

/// The user id in a mention such as `<@1234>`: its ASCII digits read as a `u64`.
pub open spec fn recipient_of(user_id: Option<Seq<char>>) -> Result<int, RecipientError> {
    match user_id {
        None => Err(RecipientError::NotProvided),
        Some(s) => {
            let ds = ascii_digits_of(s);
            if ds.len() == 0 {
                Err(RecipientError::NoDigits)
            } else if digits_value(ds) > u64::MAX {
                Err(RecipientError::TooLarge)
            } else {
                Ok(digits_value(ds))
            }
        },
    }
}

/// Finds whom a reminder goes to: the ASCII digits of the stored user, read as a
/// `u64`.
pub fn reminder_recipient(user_id: Option<&str>) -> (r: Result<u64, RecipientError>)
    ensures
        match recipient_of(opt_str_view(user_id)) {
            Ok(id) => r == Ok::<u64, RecipientError>(id as u64),
            Err(e) => r == Err::<u64, RecipientError>(e),
        },
{
    let mention = match user_id {
        Some(m) => m,
        None => return Err(RecipientError::NotProvided),
    };
    let ghost whole = mention@;
    let mut value: u64 = 0;
    let mut any_digit = false;
    let mut too_large = false;
    for c in it: mention.chars()
        invariant
            it.seq() == whole,
            any_digit == (ascii_digits_of(whole.take(it.index())).len() > 0),
            !too_large ==> value == digits_value(ascii_digits_of(whole.take(it.index()))),
            too_large ==> digits_value(ascii_digits_of(whole.take(it.index()))) > u64::MAX,
    {
        let ghost before = ascii_digits_of(whole.take(it.index()));
        proof {
            assert(whole.take(it.index() + 1) =~= whole.take(it.index()).push(c));
            whole.take(it.index()).lemma_filter_push(c, |c: char| is_ascii_digit(c));
        }
        if '0' <= c && c <= '9' {
            any_digit = true;
            proof {
                lemma_digits_value_push(before, c);
            }
            if !too_large {
                let d = (c as u32 - '0' as u32) as u64;
                match value.checked_mul(10) {
                    Some(v) => match v.checked_add(d) {
                        Some(w) => {
                            value = w;
                        },
                        None => {
                            too_large = true;
                        },
                    },
                    None => {
                        too_large = true;
                    },
                }
            }
        }
    }
    proof {
        assert(whole.take(whole.len() as int) =~= whole);
    }
    if !any_digit {
        Err(RecipientError::NoDigits)
    } else if too_large {
        Err(RecipientError::TooLarge)
    } else {
        Ok(value)
    }
}

/// What the reminder loop does with one stored reminder.
#[derive(Debug)]
pub enum ReminderStep {
    /// No date: "Incorrect date value!".
    MissingDate,
    /// Due later: left alone.
    NotDue,
    /// No user: "Incorrect user value!".
    MissingUser,
    /// No message: "Incorrect message value".
    MissingMessage,
    /// Due: send `message` to `user` (each the field's text, if it is a string).
    Deliver { user: Option<String>, message: Option<String> },
}

/// Decides what the reminder loop does with a stored reminder whose fields are
/// `date`, `user` and `message`, at the Unix time `now`.
pub fn check_reminders(date: &Field, user: &Field, message: &Field, now: i64) -> (r: ReminderStep)
    requires
        *date is Missing || *date is Int64,
    ensures
        match *date {
            Field::Int64(d) => if d > now {
                r is NotDue
            } else if *user is Missing {
                r is MissingUser
            } else if *message is Missing {
                r is MissingMessage
            } else {
                r matches ReminderStep::Deliver { user: u, message: m } && opt_string_view(u)
                    == field_text(*user) && opt_string_view(m) == field_text(*message)
            },
            _ => r is MissingDate,
        },
{
    match date {
        Field::Int64(d) => {
            if *d > now {
                ReminderStep::NotDue
            } else if let Field::Missing = user {
                ReminderStep::MissingUser
            } else if let Field::Missing = message {
                ReminderStep::MissingMessage
            } else {
                ReminderStep::Deliver { user: field_as_str(user), message: field_as_str(message) }
            }
        },
        _ => ReminderStep::MissingDate,
    }
}

/// What happened to a due reminder that the loop is handling.
#[derive(Debug, Clone, Copy, PartialEq, Eq, Structural)]
pub enum ReminderEvent {
    /// Sending the reminder succeeded (`sent`) or failed; `has_id` tells whether the
    /// stored entry has an id to delete it by.
    Delivered { sent: bool, has_id: bool },
    /// Deleting the delivered entry succeeded (`deleted`) or failed.
    Deleted { deleted: bool },
}

/// What the reminder loop does next.
#[derive(Debug, Clone, Copy, PartialEq, Eq, Structural)]
pub enum ReminderAction {
    /// Delete the entry by its id.
    Delete,
    /// Print the sending error, and go on to the next entry.
    ReportSendFailure,
    /// Print "Reminder deleted successfully", and go on to the next entry.
    ReportDeleted,
    /// Print "Failed to delete reminder: ..." to stderr, and go on to the next entry.
    ReportDeleteFailure,
    /// Go on to the next entry.
    NextEntry,
}

/// The reminder loop's answer to `event`: an entry is deleted once its reminder
/// was sent, and each failure is reported without stopping the loop.
pub open spec fn reminder_action(event: ReminderEvent) -> ReminderAction {
    match event {
        ReminderEvent::Delivered { sent, has_id } => if !sent {
            ReminderAction::ReportSendFailure
        } else if has_id {
            ReminderAction::Delete
        } else {
            ReminderAction::NextEntry
        },
        ReminderEvent::Deleted { deleted } => if deleted {
            ReminderAction::ReportDeleted
        } else {
            ReminderAction::ReportDeleteFailure
        },
    }
}

/// Decides what the reminder loop does after `event`.
pub fn after_reminder_event(event: ReminderEvent) -> (r: ReminderAction)
    ensures
        r == reminder_action(event),
{
    match event {
        ReminderEvent::Delivered { sent, has_id } => {
            if !sent {
                ReminderAction::ReportSendFailure
            } else if has_id {
                ReminderAction::Delete
            } else {
                ReminderAction::NextEntry
            }
        },
        ReminderEvent::Deleted { deleted } => {
            if deleted {
                ReminderAction::ReportDeleted
            } else {
                ReminderAction::ReportDeleteFailure
            }
        },
    }
}

/// How Discord mentions the user `id`: `<@id>`, the form the author of a reminder
/// is stored in.
pub open spec fn mention_text(id: nat) -> Seq<char> {
    seq!['<', '@'] + decimal(id) + seq!['>']
}

/// Keeping the elements that satisfy `p` keeps all of a sequence whose elements all do.
proof fn lemma_filter_all(s: Seq<char>, p: spec_fn(char) -> bool)
    requires
        forall|i: int| 0 <= i < s.len() ==> p(#[trigger] s[i]),
    ensures
        s.filter(p) == s,
    decreases s.len(),
{
    reveal_with_fuel(Seq::filter, 1);
    if s.len() > 0 {
        lemma_filter_all(s.drop_last(), p);
        assert(s.drop_last().push(s.last()) =~= s);
    } else {
        assert(s.filter(p) =~= s);
    }
}

/// A reminder stored with its author's mention goes back to that author.
pub proof fn lemma_mention_roundtrip(id: nat)
    requires
        id <= u64::MAX,
    ensures
        recipient_of(Some(mention_text(id))) == Ok::<int, RecipientError>(id as int),
{
    let p = |c: char| is_ascii_digit(c);
    lemma_decimal_is_digits(id);
    lemma_decimal_roundtrip(id);
    lemma_filter_all(decimal(id), p);
    reveal_with_fuel(Seq::filter, 3);
    assert(seq!['<', '@'].drop_last() =~= seq!['<']);
    assert(seq!['<'].drop_last() =~= Seq::<char>::empty());
    assert(seq!['<', '@'].filter(p) =~= Seq::<char>::empty());
    assert(seq!['>'].drop_last() =~= Seq::<char>::empty());
    assert(seq!['>'].filter(p) =~= Seq::<char>::empty());
    Seq::filter_distributes_over_add(seq!['<', '@'], decimal(id), p);
    Seq::filter_distributes_over_add(seq!['<', '@'] + decimal(id), seq!['>'], p);
    assert(ascii_digits_of(mention_text(id)) =~= decimal(id));
}

/// A delay written as a count in decimal with a unit letter placed anywhere among
/// its digits (`10m`, `1m0`, `m10`) reads as that many units.
pub proof fn lemma_written_delay_reads(count: nat, unit: char, at: int)
    requires
        count <= i64::MAX,
        unit_seconds(seq![unit]) is Some,
        0 <= at <= decimal(count).len(),
    ensures
        delay_seconds(decimal(count).take(at) + seq![unit] + decimal(count).skip(at)) == Some(
            count * unit_seconds(seq![unit])->0,
        ),
{
    let ds = decimal(count);
    let front = ds.take(at);
    let back = ds.skip(at);
    let s = front + seq![unit] + back;
    let num = |c: char| numeric_char(c);
    let other = |c: char| !numeric_char(c);
    lemma_decimal_is_digits(count);
    lemma_decimal_roundtrip(count);
    assert(unit == 's' || unit == 'm' || unit == 'h' || unit == 'd' || unit == 'w') by {
        assert(seq![unit][0] == unit);
        assert(seq!['s'][0] == 's');
        assert(seq!['m'][0] == 'm');
        assert(seq!['h'][0] == 'h');
        assert(seq!['d'][0] == 'd');
        assert(seq!['w'][0] == 'w');
    }
    assert(!numeric_char(unit));
    assert forall|i: int| 0 <= i < front.len() implies num(#[trigger] front[i]) by {
        assert(front[i] == ds[i]);
    }
    assert forall|i: int| 0 <= i < back.len() implies num(#[trigger] back[i]) by {
        assert(back[i] == ds[i + at]);
    }
    lemma_filter_all(front, num);
    lemma_filter_all(back, num);
    lemma_filter_none(front, other);
    lemma_filter_none(back, other);
    reveal_with_fuel(Seq::filter, 2);
    assert(seq![unit].drop_last() =~= Seq::<char>::empty());
    assert(seq![unit].filter(num) =~= Seq::<char>::empty());
    assert(seq![unit].filter(other) =~= seq![unit]);
    Seq::filter_distributes_over_add(front, seq![unit], num);
    Seq::filter_distributes_over_add(front + seq![unit], back, num);
    Seq::filter_distributes_over_add(front, seq![unit], other);
    Seq::filter_distributes_over_add(front + seq![unit], back, other);
    assert(front + back =~= ds);
    assert(numeric_part(s) =~= ds);
    assert(unit_part(s) =~= seq![unit]);
}

/// Keeping the elements that satisfy `p` keeps nothing of a sequence where none does.
proof fn lemma_filter_none(s: Seq<char>, p: spec_fn(char) -> bool)
    requires
        forall|i: int| 0 <= i < s.len() ==> !p(#[trigger] s[i]),
    ensures
        s.filter(p) == Seq::<char>::empty(),
    decreases s.len(),
{
    reveal_with_fuel(Seq::filter, 1);
    if s.len() > 0 {
        lemma_filter_none(s.drop_last(), p);
    } else {
        assert(s.filter(p) =~= Seq::<char>::empty());
    }
}

/// A reminder set at the Unix time `now` with a delay written as a count in decimal
/// and a unit letter (placed anywhere among the digits) falls due exactly that many
/// seconds, minutes, hours, days or weeks after `now`, where chrono can hold it.
pub proof fn lemma_reminder_due_after_delay(
    r: Option<RemindReply>,
    message: Seq<char>,
    count: nat,
    unit: char,
    at: int,
    now: int,
)
    requires
        count <= i64::MAX,
        unit == 's' || unit == 'm' || unit == 'h' || unit == 'd' || unit == 'w',
        0 <= at <= decimal(count).len(),
        ({
            let per_unit: int = if unit == 's' {
                1
            } else if unit == 'm' {
                60
            } else if unit == 'h' {
                3600
            } else if unit == 'd' {
                86400
            } else {
                604800
            };
            count * per_unit <= MAX_DELAY_SECONDS && now + count * per_unit <= MAX_UTC_TIMESTAMP
        }),
        remind_answer_is(
            r,
            message,
            decimal(count).take(at) + seq![unit] + decimal(count).skip(at),
            now,
        ),
    ensures
        ({
            let per_unit: int = if unit == 's' {
                1
            } else if unit == 'm' {
                60
            } else if unit == 'h' {
                3600
            } else if unit == 'd' {
                86400
            } else {
                604800
            };
            r matches Some(RemindReply::Scheduled { date, .. }) && date == now + count * per_unit
        }),
{
    assert(seq![unit] != seq!['s'] ==> unit != 's') by {
        if unit == 's' {
            assert(seq![unit] =~= seq!['s']);
        }
    }
    assert(seq![unit][0] == unit);
    assert(seq!['s'][0] == 's' && seq!['m'][0] == 'm' && seq!['h'][0] == 'h');
    assert(seq!['d'][0] == 'd' && seq!['w'][0] == 'w');
    if unit == 'm' {
        assert(seq![unit] =~= seq!['m']);
    } else if unit == 'h' {
        assert(seq![unit] =~= seq!['h']);
    } else if unit == 'd' {
        assert(seq![unit] =~= seq!['d']);
    } else if unit == 'w' {
        assert(seq![unit] =~= seq!['w']);
    }
    lemma_written_delay_reads(count, unit, at);
}

} // verus!
