use monclub_bot::session::{
    sort_sessions, Booking, BookingSession, Session, SessionAttendee,
};

fn session(name: &str, date: Option<&str>, time: Option<&str>) -> Session {
    Session {
        id: format!("id-{name}"),
        name: Some(name.to_string()),
        date: date.map(str::to_string),
        time: time.map(str::to_string),
        yes_participants: vec![],
        total_capacity: None,
    }
}

fn sorted_names(sessions: Vec<Session>) -> Vec<String> {
    sort_sessions(sessions)
        .into_iter()
        .map(|s| s.name.unwrap_or_default())
        .collect()
}

#[test]
fn sorts_sessions_chronologically() {
    let names = sorted_names(vec![
        session("wed", Some("2026-07-22T00:00:00.000Z"), Some("19H30")),
        session("mon", Some("2026-07-20T00:00:00.000Z"), Some("20H00")),
        session("thu", Some("2026-07-23T00:00:00.000Z"), Some("19H30")),
    ]);
    assert_eq!(names, ["mon", "wed", "thu"]);
}

#[test]
fn breaks_same_day_ties_by_time() {
    let names = sorted_names(vec![
        session("evening", Some("2026-07-20T00:00:00.000Z"), Some("20H00")),
        session("morning", Some("2026-07-20T00:00:00.000Z"), Some("08H00")),
    ]);
    assert_eq!(names, ["morning", "evening"]);
}

#[test]
fn sorts_dateless_sessions_last() {
    let names = sorted_names(vec![
        session("undated", None, None),
        session("dated", Some("2026-07-20T00:00:00.000Z"), Some("20H00")),
    ]);
    assert_eq!(names, ["dated", "undated"]);
}

#[test]
fn session_display_labels_count_as_booked() {
    let mut s = session("beach", Some("2026-07-22T00:00:00.000Z"), Some("19H30"));
    s.total_capacity = Some(24);
    s.yes_participants = (0..17).map(|i| i.to_string()).collect();
    assert_eq!(s.to_text(), "beach | 2026-07-22 | 19H30 | 17/24 booked");
}

#[test]
fn session_display_keeps_overbooked_count() {
    let mut s = session("loisir", Some("2026-07-20T00:00:00.000Z"), Some("20H00"));
    s.total_capacity = Some(36);
    s.yes_participants = (0..37).map(|i| i.to_string()).collect();
    assert!(s.to_text().ends_with("37/36 booked"));
}

#[test]
fn booking_display_ignores_deleted_attendees() {
    let attendee = |deleted: bool| SessionAttendee {
        full_name: Some("someone".to_string()),
        deleted,
    };
    let booking = Booking {
        id: "b1".to_string(),
        session_id: "s1".to_string(),
        session: vec![BookingSession {
            name: Some("beach".to_string()),
            date: Some("2026-07-23T00:00:00.000Z".to_string()),
            time: Some("19H30".to_string()),
            attendees: vec![attendee(false), attendee(true), attendee(false)],
            total_capacity: Some(24),
        }],
    };
    assert_eq!(booking.to_text(), "beach | 2026-07-23 | 19H30 | 2/24 booked");
}

#[test]
fn booking_without_session_still_renders() {
    let booking = Booking {
        id: "b1".to_string(),
        session_id: "s1".to_string(),
        session: vec![],
    };
    assert_eq!(booking.to_text(), "s1 | ? | ? | ?");
}
