use monclub_bot::attempts::{
    book_report, cancel_report, group_verdict, is_group, rollback_report, Attempt, Attempted,
    Cancellation, GroupVerdict,
};
use monclub_bot::booking::{BookError, RetryPolicy};
use monclub_bot::config::Account;
use monclub_bot::json::Json;
use monclub_bot::replies::{bookings_reply, list_reply, AccountBookings, Reply};
use monclub_bot::session::{Booking, Session};

fn session(id: &str, date: Option<&str>) -> Session {
    Session {
        id: id.to_string(),
        name: None,
        date: date.map(str::to_string),
        time: None,
        yes_participants: vec![],
        total_capacity: None,
    }
}

fn listed(limit: Option<u64>) -> Vec<String> {
    let sessions = vec![
        session("s2", Some("2026-02-02T")),
        session("s0", None),
        session("s1", Some("2026-01-01T")),
        session("s3", Some("2026-02-02T")),
    ];
    match list_reply(sessions, limit) {
        Reply::Lines(lines) => lines,
        Reply::Say(m) => panic!("{m}"),
    }
}

#[test]
fn sessions_are_listed_by_date() {
    assert_eq!(
        listed(None),
        [
            "- s0 | ? | ? (`s0`)",
            "- s1 | 2026-01-01 | ? (`s1`)",
            "- s2 | 2026-02-02 | ? (`s2`)",
            "- s3 | 2026-02-02 | ? (`s3`)",
        ]
    );
    assert_eq!(listed(Some(2)).len(), 2);
    assert_eq!(listed(Some(u64::MAX)).len(), 4);
    match list_reply(vec![], None) {
        Reply::Say(m) => assert_eq!(m, "No sessions available."),
        Reply::Lines(_) => panic!("lines"),
    }
}

fn booking(id: &str) -> Booking {
    Booking { id: id.to_string(), session_id: "s".to_string(), session: vec![] }
}

#[test]
fn a_single_account_needs_no_header() {
    let of = |bookings| AccountBookings { label: "me".to_string(), bookings };
    assert_eq!(bookings_reply(&vec![of(Ok(vec![]))]), ["No upcoming bookings."]);
    assert_eq!(
        bookings_reply(&vec![of(Ok(vec![booking("b1"), booking("b2")]))]),
        ["- s | ? | ? (`b1`)", "- s | ? | ? (`b2`)"]
    );
}

#[test]
fn several_accounts_are_told_apart() {
    let of = |label: &str, bookings| AccountBookings { label: label.to_string(), bookings };
    let lines = bookings_reply(&vec![
        of("me", Ok(vec![])),
        of("tom", Ok(vec![booking("b1")])),
        of("nils", Err("no token".to_string())),
    ]);
    assert_eq!(
        lines,
        [
            "**me**",
            "- No upcoming bookings.",
            "**tom**",
            "- s | ? | ? (`b1`)",
            "**nils**",
            "- Failed to list bookings: no token",
        ]
    );
}

fn account(label: &str) -> Account {
    Account {
        label: label.to_string(),
        email: format!("{label}@x.com"),
        password: "p".to_string(),
        custom_id: "c".to_string(),
        discord_id: None,
    }
}

fn attempt(label: &str, attempt: Attempt) -> Attempted {
    Attempted { account: account(label), attempt }
}

fn not_open() -> Attempt {
    Attempt::Refused(BookError::SlotNotOpen("x".to_string()))
}

fn rejected() -> Attempt {
    Attempt::Refused(BookError::Rejected {
        status: "noCredits".to_string(),
        message: "limit".to_string(),
    })
}

#[test]
fn a_booking_is_reported() {
    let policy = RetryPolicy { duration: 300, interval: 5 };
    let report = book_report("s1", &vec![attempt("me", Attempt::Booked)], policy);
    assert_eq!(report.reply, "Booked `s1` for: me");
    assert!(report.retry.is_empty());
    let report = book_report("s1", &vec![attempt("me", not_open())], policy);
    assert_eq!(
        report.reply,
        "Slot not open yet for: me. Retrying every 5s for up to 300s..."
    );
    assert_eq!(report.retry.len(), 1);
    assert_eq!(report.retry[0].label, "me");
    let report = book_report("s1", &vec![attempt("me", rejected())], policy);
    assert_eq!(
        report.reply,
        "Booking failed for: me (booking rejected (noCredits): limit)"
    );
    let failed = vec![
        attempt("a", Attempt::Failed("no token".to_string())),
        attempt("b", Attempt::from_outcome(Ok(Json::Null))),
        attempt("c", Attempt::Refused(BookError::Request("down".to_string()))),
    ];
    assert_eq!(
        book_report("s1", &failed, policy).reply,
        "Booked `s1` for: b\nBooking failed for: a (no token), c (down)"
    );
}

#[test]
fn a_group_is_booked_as_a_whole() {
    assert!(!is_group(&vec![account("a")]));
    assert!(is_group(&vec![account("a"), account("b")]));
    let all = vec![attempt("a", Attempt::Booked), attempt("b", Attempt::Booked)];
    match group_verdict("s1", &all) {
        GroupVerdict::Confirmed(reply) => assert_eq!(reply, "Booked `s1` for: a, b"),
        GroupVerdict::RollBack { .. } => panic!("rolled back"),
    }
}

#[test]
fn a_group_that_fails_is_rolled_back() {
    let some = vec![
        attempt("a", Attempt::Booked),
        attempt("b", not_open()),
        attempt("c", Attempt::Booked),
        attempt("d", rejected()),
    ];
    match group_verdict("s1", &some) {
        GroupVerdict::RollBack { accounts, failures } => {
            let labels: Vec<&str> = accounts.iter().map(|a| a.label.as_str()).collect();
            assert_eq!(labels, ["a", "c"]);
            assert_eq!(
                failures,
                ["b (slot not open yet)", "d (booking rejected (noCredits): limit)"]
            );
        }
        GroupVerdict::Confirmed(_) => panic!("confirmed"),
    }
}

fn cancellation(label: &str, result: Result<Option<&str>, &str>) -> Cancellation {
    Cancellation {
        label: label.to_string(),
        result: match result {
            Ok(id) => Ok(id.map(str::to_string)),
            Err(e) => Err(e.to_string()),
        },
    }
}

#[test]
fn a_roll_back_is_reported() {
    let failures = vec!["b (slot not open yet)".to_string(), "d (x)".to_string()];
    let undone = vec![
        cancellation("a", Ok(Some("b1"))),
        cancellation("c", Ok(None)),
        cancellation("e", Err("timed out")),
    ];
    assert_eq!(
        rollback_report(&failures, &undone),
        "Booking failed for: b (slot not open yet), d (x). Rolled back the whole group.\n\
         Cancelled: a, c\n\
         WARNING: rollback failed for: e (timed out) \u{2014} please cancel manually."
    );
    assert_eq!(
        rollback_report(&failures, &vec![]),
        "Booking failed for: b (slot not open yet), d (x). Rolled back the whole group."
    );
}

#[test]
fn cancellations_are_reported() {
    let list = vec![
        cancellation("a", Ok(Some("b1"))),
        cancellation("b", Ok(None)),
        cancellation("c", Err("down")),
        cancellation("d", Ok(Some("b2"))),
    ];
    assert_eq!(
        cancel_report(&list),
        "Cancelled for: a, d\nNo booking found for: b\nCancellation failed for: c (down)"
    );
    assert_eq!(cancel_report(&vec![]), "Nothing to cancel.");
}
