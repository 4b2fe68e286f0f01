use chrono::{DateTime, Duration, Local, SecondsFormat};
use monclub_bot::when::{
    current_moment, parse_session_start, parse_when, read_when, settle, settle_clock, show_at,
    today_at, tomorrow_at, wait_for, window_fits, window_opening, Civil, Clock, Moment, Timestamp,
    WhenError, MAX_DAY, MAX_SECONDS, MIN_DAY, MIN_SECONDS,
};

fn utc(t: Timestamp) -> DateTime<chrono::Utc> {
    DateTime::from_timestamp(t.seconds, t.nanos).expect("an instant")
}

#[test]
fn computes_booking_window_open_time() {
    // The `date` field is the session's start instant in UTC.
    let start = parse_session_start("2026-03-22T08:00:00.000Z").expect("parses");
    // 144h before the start is 6 days earlier, at the same instant.
    assert!(window_fits(start, 144));
    let open = utc(window_opening(start, 144));
    assert_eq!(open.to_rfc3339_opts(SecondsFormat::Secs, true), "2026-03-16T08:00:00Z");
}

#[test]
fn rejects_unparseable_session_date() {
    assert!(parse_session_start("not-a-date").is_none());
    assert!(parse_session_start("2026-03-22").is_none());
}

#[test]
fn a_start_is_an_instant_whatever_its_offset() {
    let start = parse_session_start("2026-03-22T10:00:00.250+02:00").expect("parses");
    assert_eq!(start, Timestamp { seconds: 1_774_166_400, nanos: 250_000_000 });
    let leap = parse_session_start("2016-12-31T23:59:60Z").expect("parses");
    assert_eq!(leap, Timestamp { seconds: 1_483_228_799, nanos: 1_000_000_000 });
}

#[test]
fn hours_are_subtracted_as_the_calendar_does() {
    for (text, hours) in [
        ("2026-03-22T08:00:00.5Z", 144),
        ("2026-03-22T08:00:00.5Z", -3),
        ("2016-12-31T23:59:60.25Z", 0),
        ("2016-12-31T23:59:60.25Z", 1),
        ("2016-12-31T23:59:60.25Z", -1),
    ] {
        let start = parse_session_start(text).expect("parses");
        let opens = window_opening(start, hours);
        assert_eq!(utc(opens), utc(start) - Duration::hours(hours));
        let seconds = start.seconds - hours * 3600;
        if start.nanos < 1_000_000_000 || hours == 0 {
            assert_eq!(opens, Timestamp { seconds, nanos: start.nanos });
        } else {
            let seconds = if hours > 0 { seconds + 1 } else { seconds };
            assert_eq!(opens, Timestamp { seconds, nanos: start.nanos - 1_000_000_000 });
        }
    }
}

#[test]
fn the_calendar_has_ends() {
    assert_eq!(MIN_SECONDS, DateTime::<chrono::Utc>::MIN_UTC.timestamp());
    assert_eq!(MAX_SECONDS, DateTime::<chrono::Utc>::MAX_UTC.timestamp());
    assert_eq!(MIN_DAY, chrono::Datelike::num_days_from_ce(&chrono::NaiveDate::MIN));
    assert_eq!(MAX_DAY, chrono::Datelike::num_days_from_ce(&chrono::NaiveDate::MAX));
    let start = Timestamp { seconds: 0, nanos: 0 };
    assert!(window_fits(start, 2_000_000_000));
    assert!(!window_fits(start, 2_400_000_000));
    assert!(!window_fits(start, i64::MAX));
    assert!(!window_fits(start, i64::MIN));
}

fn read(text: &str) -> Result<Moment, WhenError> {
    parse_when(text)
}

#[test]
fn reads_an_explicit_time() {
    let moment = match read("  2031-05-06 14:30 ") {
        Ok(moment) => moment,
        Err(e) => panic!("{}", e.to_text()),
    };
    assert_eq!(moment.to_text(), "2031-05-06 14:30:00");
    assert_eq!(moment.civil.clock, Clock { second: 14 * 3600 + 30 * 60, nanos: 0 });
    let local = utc(moment.at).with_timezone(&Local);
    assert_eq!(local.format("%Y-%m-%d %H:%M:%S").to_string(), "2031-05-06 14:30:00");
}

#[test]
fn reads_a_time_of_day() {
    let before = current_moment();
    let moment = match read("00:00") {
        Ok(moment) => moment,
        // Local time may skip or repeat midnight.
        Err(e) => {
            assert_eq!(e.to_text(), "Ambiguous or invalid local time: 00:00");
            return;
        }
    };
    // Midnight has always passed today.
    assert!(moment.civil.day == before.civil.day + 1 || moment.civil.day == before.civil.day + 2);
    assert_eq!(moment.civil.clock, Clock { second: 0, nanos: 0 });
}

#[test]
fn rejects_what_is_no_time() {
    for text in ["soon", "25:00", "2031-13-01 10:00", "", "14:30:00"] {
        match read(text) {
            Err(e) => assert_eq!(
                e.to_text(),
                format!("Unrecognised time format '{text}'. Use HH:MM or YYYY-MM-DD HH:MM")
            ),
            Ok(_) => panic!("read {text}"),
        }
    }
}

fn moment(day: i32, second: u32) -> Moment {
    Moment {
        at: Timestamp { seconds: (day as i64 - 719_163) * 86_400 + second as i64, nanos: 0 },
        civil: Civil { day, clock: Clock { second, nanos: 0 } },
    }
}

#[test]
fn a_time_of_day_means_today_only_while_it_lies_ahead() {
    let now = moment(738_000, 600);
    let next = Some(moment(738_001, 0));
    let settled = |today: Option<Moment>, tomorrow: Option<Moment>| {
        settle_clock(&now, today, tomorrow, "02:30").map_err(|e| e.to_text())
    };
    assert_eq!(settled(Some(moment(738_000, 660)), next), Ok(moment(738_000, 660)));
    // A time that is reached right now has passed.
    assert_eq!(settled(Some(now), next), Ok(moment(738_001, 0)));
    assert_eq!(settled(Some(moment(738_000, 0)), next), Ok(moment(738_001, 0)));
    let ambiguous = Err("Ambiguous or invalid local time: 02:30".to_string());
    assert_eq!(settled(None, next), ambiguous);
    assert_eq!(settled(Some(now), None), ambiguous);
    let end = moment(MAX_DAY, 600);
    match settle_clock(&end, Some(moment(MAX_DAY, 0)), None, "00:00") {
        Err(e) => assert_eq!(e.to_text(), "Date overflow"),
        Ok(_) => panic!("the calendar goes on"),
    }
    assert!(settle_clock(&end, Some(moment(MAX_DAY, 601)), None, "00:10").is_ok());
    let clock = Clock { second: 60, nanos: 0 };
    assert_eq!(today_at(&now, clock), Civil { day: 738_000, clock });
    match tomorrow_at(&now, clock) {
        Ok(civil) => assert_eq!(civil, Civil { day: 738_001, clock }),
        Err(e) => panic!("{}", e.to_text()),
    }
    match tomorrow_at(&moment(MAX_DAY, 0), clock) {
        Err(e) => assert_eq!(e.to_text(), "Date overflow"),
        Ok(_) => panic!("the calendar goes on"),
    }
    assert!(matches!(settle(None, "02:30"), Err(WhenError::Ambiguous(_))));
    assert!(settle(Some(now), "02:30").is_ok());
}

#[test]
fn only_the_future_is_waited_for() {
    let now = moment(738_000, 600);
    assert_eq!(wait_for(&now, &now), None);
    assert_eq!(wait_for(&moment(738_000, 599), &now), None);
    let mut target = moment(738_001, 601);
    target.at.nanos = 5;
    target.civil.clock.nanos = 5;
    match wait_for(&target, &now) {
        Some(wait) => {
            assert_eq!(wait.seconds, 86_401);
            assert_eq!(wait.nanos, 5);
        }
        None => panic!("no wait"),
    }
}

#[test]
fn a_leap_second_counts_when_waiting() {
    let leap = parse_session_start("2016-12-31T23:59:60.5Z").expect("parses");
    let civil = Civil { day: 736_329, clock: Clock { second: 86_399, nanos: 1_500_000_000 } };
    let target = Moment { at: leap, civil };
    let now = moment(736_329, 86_390);
    match wait_for(&target, &now) {
        Some(wait) => {
            assert_eq!((wait.seconds, wait.nanos), (10, 500_000_000));
            let between = (utc(target.at) - utc(now.at)).to_std().expect("positive");
            assert_eq!((wait.seconds, wait.nanos), (between.as_secs(), between.subsec_nanos()));
        }
        None => panic!("no wait"),
    }
}

#[test]
fn the_current_moment_agrees_with_the_clock() {
    let before = Local::now().timestamp();
    let now = current_moment();
    let after = Local::now().timestamp();
    assert!(before <= now.at.seconds && now.at.seconds <= after);
    let civil = (now.civil.day as i64 - 719_163) * 86_400 + now.civil.clock.second as i64;
    let offset = civil - now.at.seconds;
    assert!(-86_400 < offset && offset < 86_400);
}

#[test]
fn a_time_of_day_is_read_at_a_given_moment() {
    let noon = match parse_when("2031-05-06 12:00") {
        Ok(noon) => noon,
        Err(e) => panic!("{}", e.to_text()),
    };
    let read_at = |text: &str| match read_when(text, &noon) {
        Ok(m) => m.to_text(),
        Err(e) => panic!("{}", e.to_text()),
    };
    assert_eq!(read_at("12:01"), "2031-05-06 12:01:00");
    assert_eq!(read_at(" 23:59"), "2031-05-06 23:59:00");
    assert_eq!(read_at("12:00"), "2031-05-07 12:00:00");
    assert_eq!(read_at("11:59"), "2031-05-07 11:59:00");
    assert_eq!(read_at("2031-05-01 10:00"), "2031-05-01 10:00:00");
}

#[test]
fn an_instant_is_shown_at_an_offset() {
    let at = Timestamp { seconds: 1_774_166_459, nanos: 999_999_999 };
    assert_eq!(show_at(at, 0), "2026-03-22 08:00");
    assert_eq!(show_at(at, 7200), "2026-03-22 10:00");
    assert_eq!(show_at(at, -8 * 3600 - 60), "2026-03-21 23:59");
    assert_eq!(show_at(at, 86_399), "2026-03-23 08:00");
    // Also at the ends of the calendar, where an offset leaves it.
    let last = Timestamp { seconds: MAX_SECONDS, nanos: 0 };
    assert_eq!(show_at(last, 0), "+262142-12-31 23:59");
    assert_eq!(show_at(last, 60), "+262143-01-01 00:00");
}
