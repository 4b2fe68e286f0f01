use monclub_bot::client::{MonClubClient, SessionComparison};
use monclub_bot::message::{
    chunk_lines, format_booking, format_comparison, format_session, format_session_detail,
};
use monclub_bot::session::{
    Booking, BookingSession, Price, Session, SessionAttendee, SessionCoach, SessionDetail,
    SessionPlace,
};

fn detail(id: &str, names: Vec<Option<&str>>) -> SessionDetail {
    SessionDetail {
        id: id.to_string(),
        name: None,
        date: None,
        time: None,
        end_time: None,
        place: None,
        total_capacity: None,
        price: None,
        description: None,
        info: None,
        level: None,
        coachs: None,
        yes_participants: vec![],
        attendees: names
            .into_iter()
            .map(|n| SessionAttendee { full_name: n.map(str::to_string), deleted: false })
            .collect(),
    }
}

fn full_detail() -> SessionDetail {
    let mut d = detail("s1", vec![Some("Ann"), None]);
    d.name = Some("Jeu Libre".to_string());
    d.date = Some("2026-04-04T15:00:00.000Z".to_string());
    d.time = Some("17H00".to_string());
    d.end_time = Some("19H00".to_string());
    d.place = Some(SessionPlace {
        name: Some("Hall".to_string()),
        address: Some("1 rue Example".to_string()),
        zip_code: Some("75000".to_string()),
        city: Some("Paris".to_string()),
    });
    d.total_capacity = Some(24);
    d.price = Some(Price { bits: 5.0f64.to_bits(), text: "5".to_string() });
    d.description = Some("Note: bring water".to_string());
    d.info = Some("  Sur inscription\n".to_string());
    d.level = Some("beginner".to_string());
    d.coachs = Some(vec![
        SessionCoach { full_name: Some("C1".to_string()) },
        SessionCoach { full_name: None },
        SessionCoach { full_name: Some("C2".to_string()) },
    ]);
    d.yes_participants = vec!["u1".to_string(), "u2".to_string()];
    d
}

#[test]
fn shows_the_full_detail() {
    assert_eq!(
        full_detail().display_lines(),
        [
            "Session: Jeu Libre",
            "Date: 2026-04-04  17H00 - 19H00",
            "Location: Hall, Paris (1 rue Example, 75000)",
            "Participants: 2/24",
            "Price: 5\u{20ac}",
            "Level: beginner",
            "Coaches: C1, C2",
            "Description: Note: bring water",
            "Info: Sur inscription",
            "",
            "Participants:",
            "  1. Ann",
            "  2. ?",
        ]
    );
}

#[test]
fn leaves_out_what_is_not_known() {
    assert_eq!(
        detail("s1", vec![]).display_lines(),
        ["Session: s1", "Date: ?  ? - ?", "Participants: 0/?"]
    );
    let mut d = detail("s1", vec![]);
    d.date = Some("short".to_string());
    d.price = Some(Price { bits: (-0.0f64).to_bits(), text: "-0".to_string() });
    d.level = Some("allLevels".to_string());
    d.coachs = Some(vec![SessionCoach { full_name: None }]);
    d.description = Some(String::new());
    d.info = Some(" \u{3000} ".to_string());
    assert_eq!(
        d.display_lines(),
        ["Session: s1", "Date: ?  ? - ?", "Participants: 0/?", "Price: free"]
    );
}

#[test]
fn the_key_of_a_line_is_bold() {
    let lines = format_session_detail(&full_detail());
    assert_eq!(lines[0], "**Session:** Jeu Libre");
    // Only the first separator counts.
    assert_eq!(lines[7], "**Description:** Note: bring water");
    assert_eq!(lines[9], "");
    assert_eq!(lines[10], "Participants:");
    assert_eq!(lines[11], "  1. Ann");
}

fn comparison() -> SessionComparison {
    let mut a = detail("a", vec![Some("Zoe"), Some("Ann"), Some("Ann"), None]);
    a.name = Some(": ".to_string());
    a.date = Some("2026-04-04T15:00:00.000Z".to_string());
    a.time = Some("17H00".to_string());
    MonClubClient::compare_sessions(a, detail("b", vec![Some("Bob"), Some("Ann")]))
}

#[test]
fn compares_participants() {
    let c = comparison();
    assert_eq!(c.in_both, ["Ann"]);
    assert_eq!(c.only_in_a, ["Zoe"]);
    assert_eq!(c.only_in_b, ["Bob"]);
    assert_eq!(
        c.display_lines(),
        [
            "Session A: :  (2026-04-04 17H00)",
            "Session B: b (? ?)",
            "",
            "In both (1):",
            "  - Ann",
            "",
            "Only in A (1):",
            "  - Zoe",
            "",
            "Only in B (1):",
            "  - Bob",
        ]
    );
    let lines = format_comparison(&c);
    assert_eq!(lines[0], "**Session A:** :  (2026-04-04 17H00)");
    assert_eq!(lines[3], "In both (1):");
}

#[test]
fn comparing_the_other_way_round_swaps_the_sides() {
    let ab = MonClubClient::compare_sessions(
        detail("a", vec![Some("x"), Some("y")]),
        detail("b", vec![Some("y"), Some("z")]),
    );
    let ba = MonClubClient::compare_sessions(
        detail("b", vec![Some("y"), Some("z")]),
        detail("a", vec![Some("x"), Some("y")]),
    );
    assert_eq!(ab.in_both, ba.in_both);
    assert_eq!(ab.only_in_a, ba.only_in_b);
    assert_eq!(ab.only_in_b, ba.only_in_a);
    let none = MonClubClient::compare_sessions(detail("a", vec![]), detail("b", vec![]));
    assert_eq!(none.display_lines()[4], "  (none)");
}

#[test]
fn an_empty_value_is_not_emphasised_in_a_comparison() {
    let mut c = comparison();
    c.in_both = vec!["key: ".to_string(), "key: value".to_string()];
    let lines = format_comparison(&c);
    assert_eq!(lines[4], "  - key: ");
    assert_eq!(lines[5], "**  - key:** value");
}

#[test]
fn sessions_and_bookings_take_three_columns() {
    let s = Session {
        id: "s1".to_string(),
        name: None,
        date: Some("2026-07-22T00:00:00.000Z".to_string()),
        time: None,
        yes_participants: vec![],
        total_capacity: Some(4),
    };
    assert_eq!(format_session(&s), "s1 | 2026-07-22 | ?");
    let mut b = Booking { id: "b1".to_string(), session_id: "s1".to_string(), session: vec![] };
    assert_eq!(format_booking(&b), "s1 | ? | ?");
    b.session.push(BookingSession {
        name: Some("beach".to_string()),
        date: Some("2026-07-2\u{e9}T".to_string()),
        time: Some("19H30".to_string()),
        attendees: vec![],
        total_capacity: None,
    });
    // A day that ends within a character is none.
    assert_eq!(format_booking(&b), "beach | ? | 19H30");
}

fn lines_of(list: Vec<String>) -> Vec<String> {
    chunk_lines(&list)
}

#[test]
fn short_lines_make_one_message() {
    let lines = vec!["a".to_string(), String::new(), "b".to_string()];
    assert_eq!(lines_of(lines), ["a\n\nb"]);
    assert_eq!(lines_of(vec![]).len(), 0);
    assert_eq!(lines_of(vec![String::new()]).len(), 0);
}

#[test]
fn messages_are_filled_up_to_the_limit() {
    let lines: Vec<String> = vec!["x".repeat(949), "y".repeat(950), "z".to_string()];
    let messages = lines_of(lines);
    assert_eq!(messages.len(), 2);
    assert_eq!(messages[0].len(), 1900);
    assert_eq!(messages[1], "z");
    // The limit counts bytes.
    let lines: Vec<String> = vec!["\u{e9}".repeat(475), "y".repeat(950)];
    assert_eq!(lines_of(lines).len(), 2);
    // A line that is too long alone is kept whole.
    let lines: Vec<String> = vec!["a".to_string(), "x".repeat(3000), "b".to_string()];
    let messages = lines_of(lines);
    assert_eq!(messages.len(), 3);
    assert_eq!(messages[1].len(), 3000);
}

#[test]
fn no_line_is_lost() {
    let lines: Vec<String> = (0..500).map(|i| format!("line number {i}")).collect();
    let messages = lines_of(lines);
    assert!(messages.iter().all(|m| m.len() <= 1900));
    let again: Vec<String> =
        messages.iter().flat_map(|m| m.split('\n').map(str::to_string)).collect();
    assert_eq!(again.len(), 500);
    assert_eq!(again[499], "line number 499");
    // Each message is filled as far as it goes.
    for pair in messages.windows(2) {
        let first = pair[1].split('\n').next().expect("a line");
        assert!(pair[0].len() + 1 + first.len() > 1900);
    }
}
