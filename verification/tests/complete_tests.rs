use monclub_bot::complete::{booking_choices, booking_session_id, session_choices};
use monclub_bot::listing::{
    bookable_sessions, booking_for_session, most_recent_first, other_sessions,
    sessions_booked_first,
};
use monclub_bot::session::{sort_bookings, Booking, BookingSession, Session};

fn session(id: &str, name: Option<&str>) -> Session {
    Session {
        id: id.to_string(),
        name: name.map(str::to_string),
        date: None,
        time: None,
        yes_participants: vec![],
        total_capacity: None,
    }
}

fn booking(id: &str, of: &str, name: Option<&str>) -> Booking {
    Booking {
        id: id.to_string(),
        session_id: of.to_string(),
        session: vec![BookingSession {
            name: name.map(str::to_string),
            date: None,
            time: None,
            attendees: vec![],
            total_capacity: None,
        }],
    }
}

fn offered(typed: &str) -> Vec<String> {
    let sessions = vec![
        session("s1", Some("\u{c9}t\u{e9} Beach")),
        session("s2", None),
        session("s3", Some("Indoor")),
    ];
    session_choices(sessions, typed).into_iter().map(|c| c.value).collect()
}

#[test]
fn sessions_are_offered_by_name() {
    assert_eq!(offered(""), ["s1", "s2", "s3"]);
    assert_eq!(offered("BEACH"), ["s1"]);
    // Letter case is aside for all letters.
    assert_eq!(offered("\u{e9}T\u{c9}"), ["s1"]);
    assert_eq!(offered("o"), ["s3"]);
    assert_eq!(offered("s2").len(), 0);
    let choices = session_choices(vec![session("s9", None)], "");
    assert_eq!(choices[0].name, "s9 | ? | ?");
}

#[test]
fn no_more_choices_than_can_be_shown() {
    let sessions: Vec<Session> =
        (0..60).map(|i| session(&format!("s{i}"), Some("x"))).collect();
    let choices = session_choices(sessions, "X");
    assert_eq!(choices.len(), 25);
    assert_eq!(choices[24].value, "s24");
}

#[test]
fn bookings_are_offered_with_both_ids() {
    let bookings = vec![
        booking("b1", "s1", Some("Beach")),
        Booking { id: "b2".to_string(), session_id: "s2".to_string(), session: vec![] },
    ];
    let choices = booking_choices(bookings, "bea");
    assert_eq!(choices.len(), 1);
    assert_eq!(choices[0].name, "Beach | ? | ?");
    assert_eq!(choices[0].value, "b1:s1");
    assert_eq!(booking_session_id(&choices[0].value), Ok("s1".to_string()));
    let bookings = vec![booking("b1", "s1", None)];
    assert_eq!(booking_choices(bookings, "").len(), 1);
}

#[test]
fn a_value_without_a_colon_is_refused() {
    assert_eq!(
        booking_session_id("b1"),
        Err("Invalid booking value \u{2014} use the autocomplete dropdown".to_string())
    );
    // The first colon parts the ids.
    assert_eq!(booking_session_id("b1:s1:x"), Ok("s1:x".to_string()));
    assert_eq!(booking_session_id(":"), Ok(String::new()));
}

#[test]
fn booked_sessions_are_not_offered_again() {
    let sessions = || vec![session("s1", None), session("s2", None), session("s3", None)];
    let bookings = vec![booking("b1", "s2", None), booking("b2", "s9", None)];
    let open: Vec<String> =
        bookable_sessions(sessions(), &bookings).into_iter().map(|s| s.id).collect();
    assert_eq!(open, ["s1", "s3"]);
    let first: Vec<String> =
        sessions_booked_first(sessions(), &bookings).into_iter().map(|s| s.id).collect();
    assert_eq!(first, ["s2", "s1", "s3"]);
    let others: Vec<String> =
        other_sessions(sessions(), "s1").into_iter().map(|s| s.id).collect();
    assert_eq!(others, ["s2", "s3"]);
}

#[test]
fn the_first_booking_of_a_session_is_found() {
    let list = || vec![booking("b1", "s1", None), booking("b2", "s2", None)];
    assert_eq!(booking_for_session(list(), "s2").expect("one").id, "b2");
    assert!(booking_for_session(list(), "s3").is_none());
}

fn dated(id: &str, date: Option<&str>, time: Option<&str>) -> Booking {
    let mut b = booking(id, "s", None);
    b.session[0].date = date.map(str::to_string);
    b.session[0].time = time.map(str::to_string);
    b
}

#[test]
fn bookings_are_chronological_and_the_past_is_reversed() {
    // A booking whose session has no date, or that has no session, comes last.
    let bare = Booking { id: "b0".to_string(), session_id: "s".to_string(), session: vec![] };
    let list = vec![
        dated("undated", None, None),
        dated("late", Some("2026-02-01"), Some("09H00")),
        bare,
        dated("early", Some("2026-02-01"), Some("08H00")),
        dated("first", Some("2026-01-01"), Some("20H00")),
    ];
    let sorted = sort_bookings(list);
    let ids: Vec<&str> = sorted.iter().map(|b| b.id.as_str()).collect();
    assert_eq!(ids, ["first", "early", "late", "undated", "b0"]);
    let back: Vec<String> = most_recent_first(sorted).into_iter().map(|b| b.id).collect();
    assert_eq!(back, ["b0", "undated", "late", "early", "first"]);
}
