use discord_bot::birthday::{
    advance_birthday, after_birthday_event, birthday, birthday_at, birthday_greeting,
    check_birthdays, BirthdayAction, BirthdayError, BirthdayEvent, BirthdayStep,
};
use discord_bot::calendar::{days_from_ce, CivilDate};
use discord_bot::clock::utc_now;
use discord_bot::record::Field;

fn date(year: i32, month: u32, day: u32) -> CivilDate {
    CivilDate { year, month, day }
}

#[test]
fn day_numbers() {
    assert_eq!(days_from_ce(1970, 1, 1), Some(719_163));
    assert_eq!(days_from_ce(1, 1, 1), Some(1));
    assert_eq!(days_from_ce(2, 1, 1), Some(366));
    assert_eq!(days_from_ce(0, 1, 1), Some(-365));
    assert_eq!(days_from_ce(2024, 3, 5), Some(738_950));
    assert_eq!(days_from_ce(2023, 2, 29), None);
    assert_eq!(days_from_ce(2024, 2, 29), Some(738_945));
    assert_eq!(days_from_ce(2024, 4, 31), None);
    assert_eq!(days_from_ce(2024, 13, 1), None);
    assert_eq!(days_from_ce(400000, 1, 1), None);
}

#[test]
fn birthday_later_this_year() {
    assert_eq!(birthday_at(3, 5, date(2024, 3, 5)), Some(Ok(1_709_596_800)));
    assert_eq!(birthday_at(12, 31, date(2024, 3, 5)), Some(Ok(1_735_603_200)));
}

#[test]
fn birthday_passed_goes_to_next_year() {
    assert_eq!(birthday_at(3, 4, date(2024, 3, 5)), Some(Ok(1_741_046_400)));
    assert_eq!(birthday_at(1, 1, date(2024, 12, 31)), Some(Ok(1_735_689_600)));
}

#[test]
fn birthday_leap_day() {
    assert_eq!(birthday_at(2, 29, date(2024, 1, 10)), Some(Ok(1_709_164_800)));
    // Passed in 2024, and 2025 has no 29 February.
    assert_eq!(birthday_at(2, 29, date(2024, 3, 5)), None);
    // 2023 has no 29 February.
    assert_eq!(birthday_at(2, 29, date(2023, 1, 10)), None);
}

#[test]
fn birthday_date_that_never_exists() {
    let today = date(2024, 3, 5);
    assert_eq!(birthday_at(2, 30, today), None);
    assert_eq!(birthday_at(4, 31, today), None);
}

#[test]
fn birthday_errors() {
    let today = date(2024, 3, 5);
    assert_eq!(birthday_at(1, 0, today), Some(Err(BirthdayError::IncorrectDay)));
    assert_eq!(birthday_at(13, 32, today), Some(Err(BirthdayError::IncorrectDay)));
    assert_eq!(birthday_at(13, 1, today), Some(Err(BirthdayError::IncorrectMonth)));
    assert_eq!(birthday_at(0, 1, today), Some(Err(BirthdayError::IncorrectMonth)));
    assert_eq!(BirthdayError::IncorrectDay.reply(), "Incorrect day value.");
    assert_eq!(BirthdayError::IncorrectDay.reason(), "Incorrect day value");
    assert_eq!(BirthdayError::IncorrectMonth.reply(), "Incorrect month value.");
    assert_eq!(BirthdayError::IncorrectMonth.reason(), "Incorrect month value");
}

#[test]
fn birthday_now() {
    assert_eq!(birthday(3, 0), Some(Err(BirthdayError::IncorrectDay)));
    assert_eq!(birthday(13, 3), Some(Err(BirthdayError::IncorrectMonth)));
    assert_eq!(birthday(2, 30), None);
    assert_eq!(birthday(4, 31), None);
    let now = utc_now();
    let ts = birthday(7, 14).unwrap().unwrap();
    let today_midnight = now.timestamp - now.timestamp % 86_400;
    assert!(ts >= today_midnight);
    assert!(ts < today_midnight + 366 * 86_400);
    assert_eq!(ts % 86_400, 0);
}

#[test]
fn next_birthday_window() {
    for (y, m, d) in [(2023, 1, 1), (2023, 12, 31), (2024, 2, 28), (2024, 6, 15)] {
        let today = date(y, m, d);
        let midnight = (days_from_ce(y, m, d).unwrap() as i64 - 719_163) * 86_400;
        for month in 1..=12 {
            for day in [1, 15, 28] {
                let ts = birthday_at(month, day, today).unwrap().unwrap();
                assert!(ts >= midnight && ts < midnight + 366 * 86_400);
            }
        }
    }
}

#[test]
fn clock_reading() {
    let now = utc_now();
    assert!(now.timestamp > 1_700_000_000);
    let n = days_from_ce(now.today.year, now.today.month, now.today.day).unwrap() as i64;
    let midnight = (n - 719_163) * 86_400;
    assert!(midnight <= now.timestamp && now.timestamp < midnight + 86_400);
}

#[test]
fn greetings() {
    assert_eq!(birthday_greeting(Some("<@42>")), "Happy birthday <@42>");
    assert_eq!(birthday_greeting(None), "Happy birthday error");
}

#[test]
fn advance_one_year() {
    assert_eq!(advance_birthday(1_709_596_800), 1_741_132_800);
    assert_eq!(advance_birthday(i64::MAX - 31_536_000), i64::MAX);
}

#[test]
fn birthday_steps() {
    let user = Field::Text("<@42>".to_string());
    assert!(matches!(check_birthdays(&Field::Missing, &user, 10), BirthdayStep::MissingDate));
    assert!(matches!(check_birthdays(&Field::Int64(11), &user, 10), BirthdayStep::NotDue));
    assert!(matches!(check_birthdays(&Field::Int64(10), &Field::Missing, 10), BirthdayStep::MissingUser));
    match check_birthdays(&Field::Int64(9), &user, 10) {
        BirthdayStep::Celebrate { greeting, date } => {
            assert_eq!(greeting, "Happy birthday <@42>");
            assert_eq!(date, 9);
        }
        other => panic!("unexpected {:?}", other),
    }
    match check_birthdays(&Field::Int64(9), &Field::Int64(1), 10) {
        BirthdayStep::Celebrate { greeting, .. } => assert_eq!(greeting, "Happy birthday error"),
        other => panic!("unexpected {:?}", other),
    }
}

#[test]
fn birthday_after_events() {
    assert_eq!(
        after_birthday_event(BirthdayEvent::Greeted { sent: true, has_id: true }),
        BirthdayAction::Delete
    );
    assert_eq!(
        after_birthday_event(BirthdayEvent::Greeted { sent: true, has_id: false }),
        BirthdayAction::NextEntry
    );
    assert_eq!(
        after_birthday_event(BirthdayEvent::Greeted { sent: false, has_id: true }),
        BirthdayAction::ReportSendFailure
    );
    assert_eq!(
        after_birthday_event(BirthdayEvent::Deleted { deleted: true, date: 1_709_596_800 }),
        BirthdayAction::Restore { next_date: 1_741_132_800 }
    );
    assert_eq!(
        after_birthday_event(BirthdayEvent::Deleted { deleted: false, date: 5 }),
        BirthdayAction::ReportDeleteFailure
    );
    assert_eq!(
        after_birthday_event(BirthdayEvent::Restored { stored: true }),
        BirthdayAction::NextEntry
    );
    assert_eq!(
        after_birthday_event(BirthdayEvent::Restored { stored: false }),
        BirthdayAction::Stop
    );
}
