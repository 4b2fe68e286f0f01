use monclub_bot::attempts::Attempt;
use monclub_bot::booking::{BookError, RetryPolicy};
use monclub_bot::config::{Account, Config};
use monclub_bot::schedule::{
    alert_message, background_step, notify, notify_step, prebook, prebook_step, session_start,
    watching_reply, BackgroundStep, NotifyStep, PrebookStep,
};
use monclub_bot::session::{Session, SessionDetail};
use monclub_bot::watch::{
    first_wait, has_started, poll_pause, watchbook_reply, watching_post, NewSessions, WatchPolicy,
    WatchStep, Watched,
};
use monclub_bot::when::{
    current_moment, parse_session_start, parse_when, Civil, Clock, Moment, Timestamp, WhenError,
};

fn not_open() -> Attempt {
    Attempt::Refused(BookError::SlotNotOpen("x".to_string()))
}

fn rejected(status: &str) -> Attempt {
    Attempt::Refused(BookError::Rejected {
        status: status.to_string(),
        message: "why".to_string(),
    })
}

fn posted(attempt: &Attempt, elapsed: u64) -> String {
    let policy = RetryPolicy { duration: 300, interval: 5 };
    match background_step("tom", "s1", attempt, elapsed, policy) {
        BackgroundStep::Post(m) => m,
        BackgroundStep::Wait(n) => format!("wait {n}"),
    }
}

#[test]
fn the_background_retries_only_a_closed_slot() {
    assert_eq!(posted(&Attempt::Booked, 0), "Booked `s1` for tom.");
    assert_eq!(posted(&not_open(), 299), "wait 5");
    assert_eq!(posted(&not_open(), 300), "Booking window expired for tom.");
    assert_eq!(
        posted(&rejected("noCredits"), 0),
        "Booking failed for tom: booking rejected (noCredits): why"
    );
    let unexpected = "Booking failed for tom with an unexpected error.";
    assert_eq!(posted(&Attempt::Refused(BookError::Request("x".to_string())), 0), unexpected);
    assert_eq!(posted(&Attempt::Failed("x".to_string()), 0), unexpected);
}

fn config() -> Config {
    Config {
        email: "owner@x.com".to_string(),
        password: "p".to_string(),
        custom_id: "club1".to_string(),
        base_url: "https://example.invalid".to_string(),
        latitude: None,
        longitude: None,
        retry_duration: 1,
        retry_interval: 1,
        discord_token: None,
        discord_owner_id: Some(1),
        new_sessions_channel_id: None,
        new_sessions_poll_interval: 60,
        booking_window_hours: 144,
        watch_poll_interval: 60,
        users: vec![Account {
            label: "tom".to_string(),
            email: "tom@x.com".to_string(),
            password: "p".to_string(),
            custom_id: "club1".to_string(),
            discord_id: Some(2),
        }],
    }
}

fn moment(day: i32, second: u32) -> Moment {
    Moment {
        at: Timestamp { seconds: (day as i64 - 719_163) * 86_400 + second as i64, nanos: 0 },
        civil: Civil { day, clock: Clock { second, nanos: 0 } },
    }
}

fn said(step: PrebookStep) -> String {
    match step {
        PrebookStep::Say(m) => m,
        PrebookStep::Schedule { .. } => panic!("scheduled"),
    }
}

#[test]
fn a_booking_is_scheduled_for_the_future() {
    let now = moment(738_000, 0);
    // 2021-07-24 is day 737995.
    match prebook_step("s1", Ok(moment(738_000, 61)), &now, &config(), 1, Some("tom me")) {
        PrebookStep::Schedule { reply, wait, accounts } => {
            assert_eq!(
                reply,
                "Scheduled: will book `s1` for tom, me at `2021-07-29 00:01:01`. \
                 I'll post here when done."
            );
            assert_eq!((wait.seconds, wait.nanos), (61, 0));
            assert_eq!(accounts.len(), 2);
        }
        PrebookStep::Say(m) => panic!("{m}"),
    }
    assert_eq!(
        said(prebook_step("s1", Ok(now), &now, &config(), 1, None)),
        "That time is already in the past."
    );
    assert_eq!(
        said(prebook_step("s1", Ok(moment(738_001, 0)), &now, &config(), 1, Some("ghost"))),
        "No linked MonClub account for: ghost"
    );
    assert_eq!(
        said(prebook_step("s1", Err(WhenError::DateOverflow), &now, &config(), 1, None)),
        "Invalid time: Date overflow"
    );
}

#[test]
fn the_time_of_a_scheduled_booking_is_read() {
    assert_eq!(
        said(prebook("s1", "1999-01-01 10:00", &config(), 1, None)),
        "That time is already in the past."
    );
    assert_eq!(
        said(prebook("s1", "later", &config(), 1, None)),
        "Invalid time: Unrecognised time format 'later'. Use HH:MM or YYYY-MM-DD HH:MM"
    );
    match prebook("s1", "2999-01-01 10:00", &config(), 2, None) {
        PrebookStep::Schedule { reply, accounts, .. } => {
            assert_eq!(
                reply,
                "Scheduled: will book `s1` for tom at `2999-01-01 10:00:00`. \
                 I'll post here when done."
            );
            assert_eq!(accounts[0].label, "tom");
        }
        PrebookStep::Say(m) => panic!("{m}"),
    }
}

fn detail(name: Option<&str>, date: Option<&str>) -> SessionDetail {
    SessionDetail {
        id: "s1".to_string(),
        name: name.map(str::to_string),
        date: date.map(str::to_string),
        time: None,
        end_time: None,
        place: None,
        total_capacity: None,
        price: None,
        description: None,
        info: None,
        level: None,
        coachs: None,
        yes_participants: vec![],
        attendees: vec![],
    }
}

#[test]
fn an_alert_waits_for_the_window() {
    let start = parse_session_start("2021-08-04T00:01:00Z");
    // 144 hours before is day 738000, 00:01.
    for (offset, opens) in [
        (0, "2021-07-29 00:01"),
        (7200, "2021-07-29 02:01"),
        (-120, "2021-07-28 23:59"),
    ] {
        match notify_step(7, "s1", "beach", start, 144, &moment(738_000, 0), offset) {
            NotifyStep::Watch { reply, wait, alert } => {
                assert_eq!(alert, alert_message(7, "beach", "s1"));
                assert_eq!((wait.seconds, wait.nanos), (60, 0));
                assert_eq!(reply, watching_reply("beach", opens, 144));
            }
            NotifyStep::Say(m) => panic!("{m}"),
        }
    }
    // At the very opening there is still nothing to book.
    assert!(matches!(
        notify_step(7, "s1", "beach", start, 144, &moment(738_000, 60), 0),
        NotifyStep::Watch { .. }
    ));
    match notify_step(7, "s1", "beach", start, 144, &moment(738_000, 61), 0) {
        NotifyStep::Say(m) => assert_eq!(
            m,
            "`beach` is already bookable \u{2014} you can book it in the app now."
        ),
        NotifyStep::Watch { reply, .. } => panic!("{reply}"),
    }
    assert_eq!(
        watching_reply("beach", "2021-07-29 00:01", -2),
        "Watching `beach`. I'll ping you here when it opens for booking on \
         `2021-07-29 00:01` (-2h before the session starts)."
    );
}

#[test]
fn an_alert_needs_a_start() {
    let unread = |name, date, shown: &str| match notify(7, "s1", &detail(name, date), 144) {
        Some(NotifyStep::Say(m)) => assert_eq!(
            m,
            format!(
                "Couldn't read the start time for `{shown}`, so I can't work out its booking window."
            )
        ),
        _ => panic!("a start"),
    };
    unread(None, None, "s1");
    unread(Some("beach"), Some("tomorrow"), "beach");
    match notify(7, "s1", &detail(None, Some("2001-01-01T00:00:00Z")), 144) {
        Some(NotifyStep::Say(m)) => assert_eq!(
            m,
            "`s1` is already bookable \u{2014} you can book it in the app now."
        ),
        _ => panic!("not bookable"),
    }
    match notify(7, "s1", &detail(None, Some("2999-01-01T00:00:00Z")), 144) {
        Some(NotifyStep::Watch { reply, wait, alert }) => {
            assert!(wait.seconds > 0);
            let opens = chrono::DateTime::parse_from_rfc3339("2998-12-26T00:00:00Z").expect("one");
            let local = opens.with_timezone(&chrono::Local).format("%Y-%m-%d %H:%M").to_string();
            assert_eq!(reply, watching_reply("s1", &local, 144));
            assert_eq!(alert, alert_message(7, "s1", "s1"));
        }
        _ => panic!("no watch"),
    }
    assert!(notify(7, "s1", &detail(None, Some("2999-01-01T00:00:00Z")), i64::MAX).is_none());
    assert_eq!(session_start(&detail(None, Some("1970-01-01T00:00:01Z"))).expect("one").seconds, 1);
    assert_eq!(
        alert_message(7, "beach", "s1"),
        "<@7> `beach` (`s1`) is now bookable \u{2014} the booking window just opened. \
         Book it in the app."
    );
}

fn session(id: &str, date: Option<&str>) -> Session {
    Session {
        id: id.to_string(),
        name: None,
        date: date.map(str::to_string),
        time: None,
        yes_participants: vec![],
        total_capacity: None,
    }
}

#[test]
fn only_new_sessions_are_posted() {
    assert_eq!(watching_post(), "Looking for new sessions...");
    let mut watch = NewSessions::new();
    // The first listing is not announced.
    assert_eq!(watch.poll(vec![session("a", None), session("b", None)]).len(), 0);
    let posts = watch.poll(vec![
        session("late", Some("2026-02-02T")),
        session("b", None),
        session("early", Some("2026-01-01T")),
    ]);
    assert_eq!(
        posts,
        [
            "New session available: early | 2026-01-01 | ? (`early`)",
            "New session available: late | 2026-02-02 | ? (`late`)",
        ]
    );
    // Nothing is announced twice in a row.
    let again = vec![session("late", None), session("b", None), session("early", None)];
    assert_eq!(watch.poll(again).len(), 0);
    // A session that comes back is new.
    assert_eq!(watch.poll(vec![session("a", None)]).len(), 1);
    let mut empty = NewSessions::new();
    assert_eq!(empty.poll(vec![]).len(), 0);
    assert_eq!(empty.poll(vec![session("a", None)]).len(), 1);
    assert_eq!(poll_pause(0), 1);
    assert_eq!(poll_pause(60), 60);
}

fn watched() -> Watched {
    Watched { user_id: 7, label: "tom".to_string(), session_id: "s1".to_string() }
}

fn policy() -> WatchPolicy {
    WatchPolicy { opening: RetryPolicy { duration: 300, interval: 5 }, full_interval: 60 }
}

fn shown(step: WatchStep) -> (Option<String>, u64) {
    match step {
        WatchStep::Stop(m) => (Some(m), 0),
        WatchStep::Again { notice, wait } => (notice, wait),
    }
}

#[test]
fn a_watch_waits_through_a_closed_slot() {
    let mut reported = false;
    let step = watched().step(&mut reported, &not_open(), 299, false, policy());
    assert_eq!(shown(step), (None, 5));
    let step = watched().step(&mut reported, &not_open(), 300, false, policy());
    assert_eq!(shown(step), (Some("<@7> Booking window expired for tom.".to_string()), 0));
    assert!(!reported);
}

#[test]
fn a_watch_waits_through_a_full_session() {
    let mut reported = false;
    let first = watched().step(&mut reported, &rejected("full"), 9999, false, policy());
    assert_eq!(
        shown(first),
        (
            Some(
                "`s1` cannot be booked for tom yet: booking rejected (full): why. \
                 Trying again every 60s until it starts."
                    .to_string()
            ),
            60
        )
    );
    // That it is full is reported once.
    assert!(reported);
    let second = watched().step(&mut reported, &rejected("full"), 9999, false, policy());
    assert_eq!(shown(second), (None, 60));
    let booked = watched().step(&mut reported, &Attempt::Booked, 9999, false, policy());
    assert_eq!(shown(booked), (Some("<@7> Booked `s1` for tom.".to_string()), 0));
    let late = watched().step(&mut reported, &rejected("full"), 9999, true, policy());
    assert_eq!(
        shown(late),
        (
            Some(
                "<@7> `s1` has started; no longer trying to book it for tom.".to_string()
            ),
            0
        )
    );
}

#[test]
fn a_watch_stops_where_waiting_does_not_help() {
    for status in ["noCredits", "noMembership"] {
        let mut reported = false;
        let step = watched().step(&mut reported, &rejected(status), 0, false, policy());
        assert_eq!(
            shown(step),
            (
                Some(format!(
                    "<@7> Booking failed for tom: booking rejected ({status}): why"
                )),
                0
            )
        );
        assert!(!reported);
    }
    let mut reported = false;
    let failed = Attempt::Failed("x".to_string());
    let step = watched().step(&mut reported, &failed, 0, false, policy());
    assert_eq!(
        shown(step),
        (Some("<@7> Booking failed for tom with an unexpected error.".to_string()), 0)
    );
}

#[test]
fn a_watch_begins_when_the_window_opens() {
    let start = parse_session_start("2021-08-04T00:01:00Z").expect("parses");
    match first_wait(start, 144, &moment(738_000, 0)) {
        Some(wait) => assert_eq!((wait.seconds, wait.nanos), (60, 0)),
        None => panic!("no wait"),
    }
    assert!(first_wait(start, 144, &moment(738_001, 0)).is_none());
    assert!(!has_started(start, &moment(738_006, 59)));
    assert!(has_started(start, &moment(738_006, 60)));
    let accounts = config().users;
    assert_eq!(
        watchbook_reply("beach", &accounts),
        "Watching `beach` for tom. I'll book it as soon as it can be booked and post here."
    );
    assert!(parse_when("2999-01-01 10:00").is_ok());
    assert!(current_moment().at.seconds > 0);
}
