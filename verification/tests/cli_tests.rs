use monclub_bot::booking::RetryPolicy;
use monclub_bot::cli::{
    account_heading, action_picked, begin_book, begin_schedule, book_answered,
    book_targets_chosen, booking_failure, booking_picked, bookings_listed, cancel_answered,
    cancel_outcome, cancel_targets_chosen, first_choices, main_menu, previous_listed,
    schedule_session_picked, schedule_sessions_found, schedule_targets_chosen, second_choices,
    session_picked, sessions_found, sign_in_failure, time_read, when_entered, Action, BookStep,
    BookingAction, CompareStep, ManageStep, ScheduleStep,
};
use monclub_bot::config::Account;
use monclub_bot::session::{Booking, Session};
use monclub_bot::when::{Civil, Clock, Moment, Timestamp};

fn account(label: &str) -> Account {
    Account {
        label: label.to_string(),
        email: format!("{label}@x.com"),
        password: "p".to_string(),
        custom_id: "c".to_string(),
        discord_id: None,
    }
}

fn session(id: &str) -> Session {
    Session::from_id(id.to_string())
}

fn booking(id: &str, of: &str) -> Booking {
    Booking { id: id.to_string(), session_id: of.to_string(), session: vec![] }
}

#[test]
fn the_menu_offers_every_action() {
    let (question, actions) = main_menu();
    assert_eq!(question, "What would you like to do?");
    let texts: Vec<String> = actions.iter().map(Action::to_text).collect();
    assert_eq!(
        texts,
        [
            "Book a session",
            "Schedule a booking for a specific time",
            "View / manage bookings",
            "See previous sessions",
            "Compare participants between two sessions",
        ]
    );
}

#[test]
fn a_session_given_by_id_is_booked_without_asking() {
    match begin_book(Some("s1".to_string())) {
        BookStep::ChooseTargets { prompt, session, confirm } => {
            assert_eq!(prompt, "Book for whom?");
            assert_eq!(session.id, "s1");
            assert!(!confirm);
            match book_targets_chosen(session, vec![account("me")], confirm) {
                BookStep::Book { session, targets } => {
                    assert_eq!(session.id, "s1");
                    assert_eq!(targets.len(), 1);
                }
                _ => panic!("not booked"),
            }
        }
        _ => panic!("no targets"),
    }
    assert!(matches!(begin_book(None), BookStep::Search));
}

#[test]
fn the_search_goes_on_until_its_time_is_used_up() {
    let policy = RetryPolicy { duration: 10, interval: 2 };
    match sessions_found(vec![], 9, policy) {
        BookStep::SearchAgain { notice, wait } => {
            assert_eq!(notice, "No matching session yet. Retrying in 2s...");
            assert_eq!(wait, 2);
        }
        _ => panic!("no retry"),
    }
    match sessions_found(vec![], 10, policy) {
        BookStep::Fail(m) => assert_eq!(m, "Session not found after retries."),
        _ => panic!("no failure"),
    }
    match sessions_found(vec![session("s1")], 10, policy) {
        BookStep::PickSession { prompt, from } => {
            assert_eq!(prompt, "Select a session to book:");
            assert_eq!(from.len(), 1);
        }
        _ => panic!("no choice"),
    }
}

#[test]
fn a_picked_session_is_booked_only_after_a_yes() {
    let step = match session_picked(session("s1")) {
        BookStep::ChooseTargets { session, confirm, .. } => {
            book_targets_chosen(session, vec![account("me")], confirm)
        }
        _ => panic!("no targets"),
    };
    match step {
        BookStep::Confirm { prompt, default, session, targets } => {
            assert_eq!(prompt, "Book 's1 | ? | ? | ?'?");
            assert!(default);
            assert!(matches!(book_answered(session, targets, true), BookStep::Book { .. }));
        }
        _ => panic!("not asked"),
    }
    match book_answered(session("s1"), vec![account("me")], false) {
        BookStep::Say(m) => assert_eq!(m, "Booking cancelled."),
        _ => panic!("booked"),
    }
}

fn moment(day: i32, second: u32) -> Moment {
    Moment {
        at: Timestamp { seconds: (day as i64 - 719_163) * 86_400 + second as i64, nanos: 0 },
        civil: Civil { day, clock: Clock { second, nanos: 0 } },
    }
}

#[test]
fn a_booking_is_scheduled_step_by_step() {
    // Whom to book for comes first, whether or not the session is given.
    for id in [None, Some("s1".to_string())] {
        match begin_schedule(id.clone()) {
            ScheduleStep::ChooseTargets { prompt, session_id } => {
                assert_eq!(prompt, "Book for whom?");
                assert_eq!(session_id, id);
            }
            _ => panic!("no targets"),
        }
    }
    match schedule_targets_chosen(None, vec![account("me")], Some("10:00")) {
        ScheduleStep::Search { targets } => assert_eq!(targets[0].label, "me"),
        _ => panic!("no search"),
    }
    match schedule_sessions_found(vec![], vec![account("me")]) {
        ScheduleStep::EnterSession { prompt, targets } => {
            assert_eq!(prompt, "No sessions found. Enter session ID manually:");
            assert_eq!(targets[0].label, "me");
        }
        _ => panic!("not asked"),
    }
    match schedule_sessions_found(vec![session("s1")], vec![account("me")]) {
        ScheduleStep::PickSession { prompt, from, targets } => {
            assert_eq!(prompt, "Select a session to book:");
            assert_eq!(from[0].id, "s1");
            assert_eq!(targets[0].label, "me");
        }
        _ => panic!("no choice"),
    }
    for step in [
        schedule_session_picked(session("s1"), vec![account("me")], None),
        schedule_targets_chosen(Some("s1".to_string()), vec![account("me")], None),
    ] {
        match step {
            ScheduleStep::AskWhen { prompt, session, targets } => {
                assert_eq!(prompt, "When to book? (HH:MM or YYYY-MM-DD HH:MM, local time):");
                assert_eq!(session.id, "s1");
                assert_eq!(targets[0].label, "me");
            }
            _ => panic!("not asked"),
        }
    }
    let now = moment(738_000, 0);
    match time_read(session("s1"), vec![account("me")], Ok(moment(738_000, 90)), &now) {
        ScheduleStep::Wait { notice, wait, then_notice, session, targets } => {
            assert_eq!(notice, "Will book 's1 | ? | ? | ?' at 2021-07-29 00:01:30. Waiting...");
            assert_eq!((wait.seconds, wait.nanos), (90, 0));
            assert_eq!(then_notice, "Target time reached. Booking now...");
            assert_eq!(session.id, "s1");
            assert_eq!(targets.len(), 1);
        }
        _ => panic!("no wait"),
    }
    match time_read(session("s1"), vec![], Ok(now), &now) {
        ScheduleStep::Fail(m) => assert_eq!(m, "Target time is already in the past"),
        _ => panic!("waiting"),
    }
    match when_entered(session("s1"), vec![], "nope") {
        ScheduleStep::Fail(m) => assert_eq!(
            m,
            "Unrecognised time format 'nope'. Use HH:MM or YYYY-MM-DD HH:MM"
        ),
        _ => panic!("waiting"),
    }
    for step in [
        schedule_session_picked(session("s1"), vec![], Some("1999-01-01 10:00")),
        schedule_targets_chosen(Some("s1".to_string()), vec![], Some("1999-01-01 10:00")),
    ] {
        match step {
            ScheduleStep::Fail(m) => assert_eq!(m, "Target time is already in the past"),
            _ => panic!("waiting"),
        }
    }
}

#[test]
fn a_booking_is_viewed_or_cancelled() {
    match bookings_listed(vec![]) {
        ManageStep::Say(m) => assert_eq!(m, "No upcoming bookings found."),
        _ => panic!("bookings"),
    }
    assert!(matches!(
        bookings_listed(vec![booking("b1", "s1")]),
        ManageStep::PickBooking { .. }
    ));
    match booking_picked(booking("b1", "s1")) {
        ManageStep::PickAction { prompt, actions, .. } => {
            assert_eq!(prompt, "What would you like to do with 's1 | ? | ? | ?'?");
            let texts: Vec<String> = actions.iter().map(BookingAction::to_text).collect();
            assert_eq!(texts, ["View info", "Cancel reservation"]);
        }
        _ => panic!("no actions"),
    }
    match action_picked(booking("b1", "s1"), BookingAction::ViewInfo) {
        ManageStep::ShowSession(id) => assert_eq!(id, "s1"),
        _ => panic!("not shown"),
    }
    match action_picked(booking("b1", "s1"), BookingAction::Cancel) {
        ManageStep::ChooseTargets { prompt, .. } => assert_eq!(prompt, "Cancel for whom?"),
        _ => panic!("no targets"),
    }
}

#[test]
fn nothing_is_cancelled_without_a_yes() {
    match cancel_targets_chosen(booking("b1", "s1"), vec![account("me")]) {
        ManageStep::Confirm { prompt, default, .. } => {
            assert_eq!(prompt, "Cancel 's1 | ? | ? | ?'?");
            assert!(!default);
        }
        _ => panic!("not asked"),
    }
    match cancel_targets_chosen(booking("b1", "s1"), vec![account("me"), account("tom")]) {
        ManageStep::Confirm { prompt, booking, targets, .. } => {
            assert_eq!(prompt, "Cancel 's1 | ? | ? | ?' for me, tom?");
            match cancel_answered(booking, targets, true) {
                ManageStep::Cancel { session_id, targets } => {
                    assert_eq!(session_id, "s1");
                    assert_eq!(targets.len(), 2);
                }
                _ => panic!("not cancelled"),
            }
        }
        _ => panic!("not asked"),
    }
    match cancel_answered(booking("b1", "s1"), vec![], false) {
        ManageStep::Say(m) => assert_eq!(m, "Cancellation aborted."),
        _ => panic!("cancelled"),
    }
}

#[test]
fn past_sessions_are_offered_most_recent_first() {
    match previous_listed(vec![booking("b1", "s1"), booking("b2", "s2")]) {
        ManageStep::PickBooking { prompt, from } => {
            assert_eq!(prompt, "Select a previous session:");
            assert_eq!(from[0].id, "b2");
            assert_eq!(from[1].id, "b1");
        }
        _ => panic!("no bookings"),
    }
    match previous_listed(vec![]) {
        ManageStep::Say(m) => assert_eq!(m, "No previous sessions found."),
        _ => panic!("bookings"),
    }
}

#[test]
fn two_different_sessions_are_compared() {
    let sessions = || vec![session("s1"), session("s2"), session("s3")];
    let bookings = vec![booking("b", "s3")];
    match first_choices(sessions(), &bookings) {
        CompareStep::PickSession { prompt, from } => {
            assert_eq!(prompt, "Select session A:");
            let ids: Vec<&str> = from.iter().map(|s| s.id.as_str()).collect();
            assert_eq!(ids, ["s3", "s1", "s2"]);
        }
        CompareStep::Fail(m) => panic!("{m}"),
    }
    match second_choices(sessions(), &bookings, "s1") {
        CompareStep::PickSession { prompt, from } => {
            assert_eq!(prompt, "Select session B:");
            let ids: Vec<&str> = from.iter().map(|s| s.id.as_str()).collect();
            assert_eq!(ids, ["s3", "s2"]);
        }
        CompareStep::Fail(m) => panic!("{m}"),
    }
    match first_choices(vec![], &bookings) {
        CompareStep::Fail(m) => assert_eq!(m, "No sessions available"),
        CompareStep::PickSession { .. } => panic!("a choice"),
    }
    match second_choices(vec![session("s1")], &bookings, "s1") {
        CompareStep::Fail(m) => assert_eq!(m, "No other sessions available"),
        CompareStep::PickSession { .. } => panic!("a choice"),
    }
}

#[test]
fn each_account_is_reported() {
    assert_eq!(account_heading("tom", true), Some("--- tom ---".to_string()));
    assert_eq!(account_heading("tom", false), None);
    assert_eq!(sign_in_failure("no token"), "authentication failed: no token");
    assert_eq!(booking_failure("tom", "down", true), "tom: down");
    assert_eq!(booking_failure("tom", "down", false), "down");
    assert_eq!(
        cancel_outcome("tom", &Ok(Some("b1".to_string()))),
        Ok("Cancelled booking b1 for tom.".to_string())
    );
    assert_eq!(
        cancel_outcome("tom", &Ok(None)),
        Ok("No booking for tom on this session.".to_string())
    );
    assert_eq!(
        cancel_outcome("tom", &Err("down".to_string())),
        Err("tom: down".to_string())
    );
}
