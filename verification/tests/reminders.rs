use discord_bot::clock::MAX_UTC_TIMESTAMP;
use discord_bot::record::Field;
use discord_bot::remind::{
    after_reminder_event, check_reminders, parse_duration_string, remind, remind_at,
    reminder_recipient, RecipientError, RemindReply, ReminderAction, ReminderEvent,
    ReminderStep, MAX_DELAY_SECONDS,
};

const REJECTED: &str = "There was an error adding your reminder. Please check that you set the time correctly. The valid durations are s, m, h, d, w.";

#[test]
fn duration_units() {
    assert_eq!(parse_duration_string("10s"), Some(10));
    assert_eq!(parse_duration_string("10m"), Some(600));
    assert_eq!(parse_duration_string("2h"), Some(7200));
    assert_eq!(parse_duration_string("3d"), Some(259200));
    assert_eq!(parse_duration_string("1w"), Some(604800));
    assert_eq!(parse_duration_string("0s"), Some(0));
}

#[test]
fn duration_digits_and_unit_are_separated() {
    assert_eq!(parse_duration_string("1s0"), Some(10));
    assert_eq!(parse_duration_string("m15"), Some(900));
    assert_eq!(parse_duration_string("m10"), Some(600));
    assert_eq!(parse_duration_string("1m0"), Some(600));
    assert_eq!(parse_duration_string("10m"), Some(600));
    assert_eq!(parse_duration_string("3w"), Some(1_814_400));
}

#[test]
fn duration_rejected() {
    assert_eq!(parse_duration_string(""), None);
    assert_eq!(parse_duration_string("10"), None);
    assert_eq!(parse_duration_string("m"), None);
    assert_eq!(parse_duration_string("5x"), None);
    assert_eq!(parse_duration_string("5ms"), None);
    assert_eq!(parse_duration_string("2 h"), None);
    assert_eq!(parse_duration_string("+5s"), None);
    assert_eq!(parse_duration_string("-5s"), None);
}

#[test]
fn duration_non_ascii_numeric_is_not_a_count() {
    // '٣' (Arabic-Indic three) is numeric but no ASCII digit.
    assert_eq!(parse_duration_string("٣s"), None);
    assert_eq!(parse_duration_string("½h"), None);
}

#[test]
fn duration_count_too_large_for_i64() {
    assert_eq!(parse_duration_string("99999999999999999999s"), None);
}

#[test]
fn duration_longest() {
    assert_eq!(parse_duration_string("9223372036854775s"), Some(MAX_DELAY_SECONDS));
    assert_eq!(parse_duration_string("15250284452w"), Some(15250284452 * 604800));
}

#[test]
fn remind_at_schedules() {
    match remind_at("feed cat", "10m", 1_700_000_000) {
        Some(RemindReply::Scheduled { date, response }) => {
            assert_eq!(date, 1_700_000_600);
            assert_eq!(response, "You will be reminded of 'feed cat' in 10m");
        }
        other => panic!("unexpected {:?}", other),
    }
    match remind_at("feed the cat", "10m", 1_000_000) {
        Some(RemindReply::Scheduled { date, response }) => {
            assert_eq!(date, 1_000_600);
            assert_eq!(response, "You will be reminded of 'feed the cat' in 10m");
        }
        other => panic!("unexpected {:?}", other),
    }
}

#[test]
fn remind_at_rejects() {
    match remind_at("x", "ten minutes", 5) {
        Some(RemindReply::Rejected { response }) => assert_eq!(response, REJECTED),
        other => panic!("unexpected {:?}", other),
    }
}

#[test]
fn remind_at_latest() {
    match remind_at("x", "0s", MAX_UTC_TIMESTAMP) {
        Some(RemindReply::Scheduled { date, .. }) => assert_eq!(date, MAX_UTC_TIMESTAMP),
        other => panic!("unexpected {:?}", other),
    }
    assert!(remind_at("x", "1s", MAX_UTC_TIMESTAMP).is_none());
    assert!(remind_at("x", "10s", MAX_UTC_TIMESTAMP - 9).is_none());
    assert!(remind_at("x", "10s", MAX_UTC_TIMESTAMP - 10).is_some());
    assert!(remind_at("x", "9223372036854776s", 0).is_none());
    assert!(remind_at("x", "9223372036854775s", 0).is_none());
}

#[test]
fn remind_now() {
    match remind("stretch", "1h").unwrap() {
        RemindReply::Scheduled { date, response } => {
            assert!(date > 1_700_000_000 + 3600);
            assert_eq!(response, "You will be reminded of 'stretch' in 1h");
        }
        other => panic!("unexpected {:?}", other),
    }
    match remind("stretch", "soon").unwrap() {
        RemindReply::Rejected { response } => assert_eq!(response, REJECTED),
        other => panic!("unexpected {:?}", other),
    }
}

#[test]
fn remind_beyond_chrono() {
    assert!(remind("x", "9223372036854776s").is_none());
    assert!(remind("x", "9223372036854775s").is_none());
    assert!(remind("x", "20000000000000w").is_none());
}

#[test]
fn recipient_from_mention() {
    assert_eq!(reminder_recipient(Some("<@123456789012345678>")), Ok(123456789012345678));
    assert_eq!(reminder_recipient(Some("1a2b3")), Ok(123));
    assert_eq!(reminder_recipient(Some("<@18446744073709551615>")), Ok(u64::MAX));
}

#[test]
fn recipient_errors() {
    assert_eq!(reminder_recipient(None), Err(RecipientError::NotProvided));
    assert_eq!(reminder_recipient(Some("<@>")), Err(RecipientError::NoDigits));
    assert_eq!(reminder_recipient(Some("")), Err(RecipientError::NoDigits));
    assert_eq!(reminder_recipient(Some("<@18446744073709551616>")), Err(RecipientError::TooLarge));
    assert_eq!(RecipientError::NotProvided.message(), "User ID not provided");
    assert_eq!(
        RecipientError::NoDigits.message(),
        "".parse::<u64>().unwrap_err().to_string()
    );
    assert_eq!(
        RecipientError::TooLarge.message(),
        "18446744073709551616".parse::<u64>().unwrap_err().to_string()
    );
}

#[test]
fn reminder_steps() {
    let user = Field::Text("<@42>".to_string());
    let message = Field::Text("hello".to_string());
    assert!(matches!(check_reminders(&Field::Missing, &user, &message, 10), ReminderStep::MissingDate));
    assert!(matches!(check_reminders(&Field::Int64(11), &user, &message, 10), ReminderStep::NotDue));
    assert!(matches!(
        check_reminders(&Field::Int64(10), &Field::Missing, &message, 10),
        ReminderStep::MissingUser
    ));
    assert!(matches!(
        check_reminders(&Field::Int64(10), &user, &Field::Missing, 10),
        ReminderStep::MissingMessage
    ));
    match check_reminders(&Field::Int64(3), &user, &message, 10) {
        ReminderStep::Deliver { user, message } => {
            assert_eq!(user.as_deref(), Some("<@42>"));
            assert_eq!(message.as_deref(), Some("hello"));
        }
        other => panic!("unexpected {:?}", other),
    }
    match check_reminders(&Field::Int64(3), &Field::Other, &Field::Int64(7), 10) {
        ReminderStep::Deliver { user, message } => {
            assert_eq!(user, None);
            assert_eq!(message, None);
        }
        other => panic!("unexpected {:?}", other),
    }
}

#[test]
fn reminder_author_reads_back() {
    for id in [0u64, 7, 1234567890123456789, u64::MAX] {
        assert_eq!(reminder_recipient(Some(&format!("<@{}>", id))), Ok(id));
    }
}

#[test]
fn reminder_after_events() {
    assert_eq!(
        after_reminder_event(ReminderEvent::Delivered { sent: true, has_id: true }),
        ReminderAction::Delete
    );
    assert_eq!(
        after_reminder_event(ReminderEvent::Delivered { sent: true, has_id: false }),
        ReminderAction::NextEntry
    );
    assert_eq!(
        after_reminder_event(ReminderEvent::Delivered { sent: false, has_id: true }),
        ReminderAction::ReportSendFailure
    );
    assert_eq!(
        after_reminder_event(ReminderEvent::Deleted { deleted: true }),
        ReminderAction::ReportDeleted
    );
    assert_eq!(
        after_reminder_event(ReminderEvent::Deleted { deleted: false }),
        ReminderAction::ReportDeleteFailure
    );
}
