//! Bookings that are made later, and alerts.

use vstd::prelude::*;

use crate::attempts::{join_labels, labels, Attempt};
use crate::booking::{BookError, RetryPolicy};
use crate::config::{account_views, Account, AccountView, Config};
use crate::discord::{people, resolve_targets, targets};
use crate::number::{decimal, decimal_text, signed_decimal, signed_text};
use crate::session::SessionDetail;
use crate::text::{joined, or_text, text_or};
use crate::when::{
    clock_shows, current_moment, current_offset, fits_before, hours_before, nanos_between,
    offset_applies, parse_session_start, parse_when, reads_as, show_at, shown_minute, shown_moment,
    time_until, wait_for, window_fits, window_opening, written_instant, Moment, Timestamp, Wait,
    WhenError,
};

verus! {

// ---------------------------------------------------------------------------
// Booking in the background
// ---------------------------------------------------------------------------

/// What follows an attempt in the background.
#[derive(Debug)]
pub enum BackgroundStep {
    /// Post this; the booking is settled.
    Post(String),
    /// Wait so many seconds and try again.
    Wait(u64),
}

/// What is posted about an attempt that settles a booking.
pub open spec fn settled_post(
    label: Seq<char>,
    session_id: Seq<char>,
    attempt: Attempt,
) -> Seq<char> {
    match attempt {
        Attempt::Booked => "Booked `"@ + session_id + "` for "@ + label + "."@,
        Attempt::Refused(BookError::SlotNotOpen(_)) => "Booking window expired for "@ + label
            + "."@,
        Attempt::Refused(BookError::Rejected { status, message }) => "Booking failed for "@ + label
            + ": "@ + attempt.reason(),
        _ => "Booking failed for "@ + label + " with an unexpected error."@,
    }
}

/// Renders what is posted about an attempt that settles a booking.
pub fn settle_post(label: &str, session_id: &str, attempt: &Attempt) -> (r: String)
    ensures
        r@ == settled_post(label@, session_id@, *attempt),
{
    match attempt {
        Attempt::Booked => {
            let mut out = "Booked `".to_owned();
            out.append(session_id);
            out.append("` for ");
            out.append(label);
            out.append(".");
            out
        },
        Attempt::Refused(BookError::SlotNotOpen(_)) => {
            let mut out = "Booking window expired for ".to_owned();
            out.append(label);
            out.append(".");
            out
        },
        Attempt::Refused(e) => {
            let mut out = "Booking failed for ".to_owned();
            out.append(label);
            match e {
                BookError::Rejected { .. } => {
                    out.append(": ");
                    out.append(e.to_text().as_str());
                },
                _ => {
                    out.append(" with an unexpected error.");
                },
            }
            out
        },
        Attempt::Failed(_) => {
            let mut out = "Booking failed for ".to_owned();
            out.append(label);
            out.append(" with an unexpected error.");
            out
        },
    }
}

/// Decides what follows an attempt in the background, `elapsed` seconds after the first one: it
/// is repeated only while the slot is not open and the time is not used up.
pub fn background_step(
    label: &str,
    session_id: &str,
    attempt: &Attempt,
    elapsed: u64,
    policy: RetryPolicy,
) -> (r: BackgroundStep)
    ensures
        if attempt.not_open() && !policy.expired(elapsed) {
            r == BackgroundStep::Wait(policy.interval)
        } else {
            r matches BackgroundStep::Post(m) && m@ == settled_post(
                label@,
                session_id@,
                *attempt,
            )
        },
{
    if let Attempt::Refused(BookError::SlotNotOpen(_)) = attempt {
        if elapsed < policy.duration {
            return BackgroundStep::Wait(policy.interval);
        }
    }
    BackgroundStep::Post(settle_post(label, session_id, attempt))
}

// ---------------------------------------------------------------------------
// Booking at a given time
// ---------------------------------------------------------------------------

/// The answer to `/prebook`.
pub enum PrebookStep {
    /// Nothing is scheduled; say this.
    Say(String),
    /// Say this, wait, then book for each of the accounts.
    Schedule { reply: String, wait: Wait, accounts: Vec<Account> },
}

/// What is said when a booking is scheduled.
pub open spec fn scheduled_text(
    session_id: Seq<char>,
    who: Seq<Seq<char>>,
    at: Seq<char>,
) -> Seq<char> {
    "Scheduled: will book `"@ + session_id + "` for "@ + joined(who, ", "@) + " at `"@ + at
        + "`. I'll post here when done."@
}

/// Whether `r` is the answer to a request to book at a target time, made at `now`.
pub open spec fn answers_prebook(
    r: PrebookStep,
    session_id: Seq<char>,
    target: Result<Moment, WhenError>,
    now: Moment,
    wanted: Result<Seq<AccountView>, Seq<Seq<char>>>,
) -> bool {
    match target {
        Err(e) => r matches PrebookStep::Say(m) && m@ == "Invalid time: "@ + e.shown(),
        Ok(at) => if !now.at.before(at.at) {
            r matches PrebookStep::Say(m) && m@ == "That time is already in the past."@
        } else {
            match wanted {
                Err(tokens) => r matches PrebookStep::Say(m) && m@
                    == "No linked MonClub account for: "@ + joined(tokens, ", "@),
                Ok(list) => {
                    &&& r matches PrebookStep::Schedule { reply, wait, accounts }
                    &&& account_views(accounts@) == list
                    &&& wait.total() == nanos_between(at.at, now.at)
                    &&& wait.nanos < 1_000_000_000
                    &&& reply@ == scheduled_text(session_id, labels(list), shown_moment(at))
                },
            }
        },
    }
}

/// Decides about a request to book at a target time.
pub fn prebook_step(
    session_id: &str,
    target: Result<Moment, WhenError>,
    now: &Moment,
    config: &Config,
    caller: u64,
    users: Option<&str>,
) -> (r: PrebookStep)
    requires
        target matches Ok(m) ==> m.valid(),
        now.valid(),
        now.at.nanos < 1_000_000_000,
    ensures
        answers_prebook(
            r,
            session_id@,
            target,
            *now,
            targets(*config, caller, people(users)),
        ),
{
    let at = match target {
        Ok(at) => at,
        Err(e) => {
            let mut message = "Invalid time: ".to_owned();
            message.append(e.to_text().as_str());
            return PrebookStep::Say(message);
        },
    };
    let wait = match wait_for(&at, now) {
        Some(wait) => wait,
        None => {
            return PrebookStep::Say("That time is already in the past.".to_owned());
        },
    };
    match resolve_targets(config, caller, users) {
        Err(message) => PrebookStep::Say(message),
        Ok(accounts) => {
            let mut reply = "Scheduled: will book `".to_owned();
            reply.append(session_id);
            reply.append("` for ");
            reply.append(join_labels(&accounts).as_str());
            reply.append(" at `");
            reply.append(at.to_text().as_str());
            reply.append("`. I'll post here when done.");
            PrebookStep::Schedule { reply, wait, accounts }
        },
    }
}

/// Whether `r` answers a request made at some moment, for some reading of the time.
pub open spec fn answers_some_prebook(
    r: PrebookStep,
    session_id: Seq<char>,
    when: Seq<char>,
    wanted: Result<Seq<AccountView>, Seq<Seq<char>>>,
) -> bool {
    exists|target: Result<Moment, WhenError>, now: Moment| #[trigger]
        answers_prebook(r, session_id, target, now, wanted) && reads_as(when, target)
            && now.valid() && clock_shows(now)
}

/// Answers `/prebook`: a booking at a given time, for one or more accounts.
pub fn prebook(
    session_id: &str,
    when: &str,
    config: &Config,
    caller: u64,
    users: Option<&str>,
) -> (r: PrebookStep)
    ensures
        answers_some_prebook(r, session_id@, when@, targets(*config, caller, people(users))),
{
    let target = parse_when(when);
    let now = current_moment();
    let ghost read = target;
    let step = prebook_step(session_id, target, &now, config, caller, users);
    assert(answers_prebook(
        step,
        session_id@,
        read,
        now,
        targets(*config, caller, people(users)),
    ) && reads_as(when@, read) && now.valid() && clock_shows(now));
    step
}

// ---------------------------------------------------------------------------
// Alerts
// ---------------------------------------------------------------------------

/// The answer to `/notify`.
#[derive(Debug)]
pub enum NotifyStep {
    /// There is nothing to wait for; say this.
    Say(String),
    /// Say this, wait, then post the alert.
    Watch { reply: String, wait: Wait, alert: String },
}

/// What is said when a session is watched.
pub open spec fn watching_text(label: Seq<char>, opens: Seq<char>, hours: i64) -> Seq<char> {
    "Watching `"@ + label + "`. I'll ping you here when it opens for booking on `"@ + opens + "` ("@
        + signed_decimal(hours as int) + "h before the session starts)."@
}

/// Renders what is said when a session is watched.
pub fn watching_reply(label: &str, opens: &str, hours: i64) -> (r: String)
    ensures
        r@ == watching_text(label@, opens@, hours),
{
    let mut out = "Watching `".to_owned();
    out.append(label);
    out.append("`. I'll ping you here when it opens for booking on `");
    out.append(opens);
    out.append("` (");
    out.append(signed_text(hours).as_str());
    out.append("h before the session starts).");
    out
}

/// What is said when the start of a session cannot be read.
pub open spec fn no_start_text(label: Seq<char>) -> Seq<char> {
    "Couldn't read the start time for `"@ + label
        + "`, so I can't work out its booking window."@
}

/// Renders what is said when the start of a session cannot be read.
pub fn no_start_reply(label: &str) -> (r: String)
    ensures
        r@ == no_start_text(label@),
{
    let mut out = "Couldn't read the start time for `".to_owned();
    out.append(label);
    out.append("`, so I can't work out its booking window.");
    out
}

/// Whether `r` is the answer to a request to be alerted, made at `now`, for a session of this
/// start. Local time is `offset` seconds east of UTC when the window opens.
pub open spec fn answers_notify(
    r: NotifyStep,
    user_id: u64,
    session_id: Seq<char>,
    label: Seq<char>,
    start: Option<Timestamp>,
    hours: i64,
    now: Timestamp,
    offset: i32,
) -> bool {
    match start {
        None => r matches NotifyStep::Say(m) && m@ == no_start_text(label),
        Some(start) => {
            let opens = Timestamp {
                seconds: hours_before(start, hours).0 as i64,
                nanos: hours_before(start, hours).1 as u32,
            };
            if nanos_between(opens, now) < 0 {
                r matches NotifyStep::Say(m) && m@ == "`"@ + label
                    + "` is already bookable \u{2014} you can book it in the app now."@
            } else {
                &&& r matches NotifyStep::Watch { reply, wait, alert }
                &&& wait.total() == nanos_between(opens, now)
                &&& wait.nanos < 1_000_000_000
                &&& alert@ == alert_text(user_id, label, session_id)
                &&& reply@ == watching_text(label, shown_minute(opens, offset), hours)
            }
        },
    }
}

/// Decides about a request to be alerted when the booking window of a session opens: inside the
/// window, or past the session, there is nothing to wait for. The opening is shown in local time,
/// which is `offset` seconds east of UTC then.
pub fn notify_step(
    user_id: u64,
    session_id: &str,
    label: &str,
    start: Option<Timestamp>,
    hours: i64,
    now: &Moment,
    offset: i32,
) -> (r: NotifyStep)
    requires
        start matches Some(t) ==> t.valid() && fits_before(t, hours),
        now.valid(),
        -86_400 < offset < 86_400,
    ensures
        answers_notify(r, user_id, session_id@, label@, start, hours, now.at, offset),
{
    let start = match start {
        Some(start) => start,
        None => {
            return NotifyStep::Say(no_start_reply(label));
        },
    };
    let opens = window_opening(start, hours);
    match time_until(opens, now.at) {
        None => {
            let mut message = "`".to_owned();
            message.append(label);
            message.append("` is already bookable \u{2014} you can book it in the app now.");
            NotifyStep::Say(message)
        },
        Some(wait) => {
            let reply = watching_reply(label, show_at(opens, offset).as_str(), hours);
            NotifyStep::Watch { reply, wait, alert: alert_message(user_id, label, session_id) }
        },
    }
}

/// The instant that a session's date writes.
pub open spec fn written_start(detail: SessionDetail) -> Option<(i64, u32)> {
    match detail.date {
        Some(date) => written_instant(date@),
        None => None,
    }
}

/// The start of a session, where it has a readable one.
pub fn session_start(detail: &SessionDetail) -> (r: Option<Timestamp>)
    ensures
        match (r, written_start(*detail)) {
            (Some(t), Some(w)) => t.seconds == w.0 && t.nanos == w.1,
            (None, None) => true,
            _ => false,
        },
        r matches Some(t) ==> t.valid(),
{
    match &detail.date {
        Some(date) => parse_session_start(date.as_str()),
        None => None,
    }
}

/// Whether `r` answers a request made at a moment that the clock showed, in the local time that
/// applies when the window opens.
pub open spec fn answers_some_notify(
    r: NotifyStep,
    user_id: u64,
    session_id: Seq<char>,
    label: Seq<char>,
    start: Option<Timestamp>,
    hours: i64,
) -> bool {
    exists|now: Moment, offset: i32|
        {
            &&& #[trigger] answers_notify(
                r,
                user_id,
                session_id,
                label,
                start,
                hours,
                now.at,
                offset,
            )
            &&& now.valid()
            &&& clock_shows(now)
            &&& -86_400 < offset < 86_400
            &&& start matches Some(t) ==> offset_applies(
                Timestamp {
                    seconds: hours_before(t, hours).0 as i64,
                    nanos: hours_before(t, hours).1 as u32,
                },
                offset,
            )
        }
}

/// Answers `/notify` for a session: it is named, or else goes by its id. `None` where the window
/// would open outside the calendar.
pub fn notify(
    user_id: u64,
    session_id: &str,
    detail: &SessionDetail,
    hours: i64,
) -> (r: Option<NotifyStep>)
    ensures
        ({
            let start = match written_start(*detail) {
                Some((seconds, nanos)) => Some(Timestamp { seconds, nanos }),
                None => None,
            };
            match r {
                Some(step) => answers_some_notify(
                    step,
                    user_id,
                    session_id@,
                    text_or(detail.name, session_id@),
                    start,
                    hours,
                ),
                None => start matches Some(t) && !fits_before(t, hours),
            }
        }),
{
    let label = or_text(&detail.name, session_id);
    let start = session_start(detail);
    let offset = match start {
        Some(t) => {
            if !window_fits(t, hours) {
                return None;
            }
            current_offset(window_opening(t, hours))
        },
        None => 0,
    };
    let now = current_moment();
    let step = notify_step(user_id, session_id, label, start, hours, &now, offset);
    assert(answers_notify(step, user_id, session_id@, label@, start, hours, now.at, offset)
        && now.valid() && clock_shows(now) && -86_400 < offset < 86_400);
    Some(step)
}

/// The alert that a session is bookable, with a ping in front.
pub open spec fn alert_text(user_id: u64, label: Seq<char>, session_id: Seq<char>) -> Seq<char> {
    "<@"@ + decimal(user_id as nat) + "> `"@ + label + "` (`"@ + session_id
        + "`) is now bookable \u{2014} the booking window just opened. Book it in the app."@
}

/// Renders the alert that a session is bookable.
pub fn alert_message(user_id: u64, label: &str, session_id: &str) -> (r: String)
    ensures
        r@ == alert_text(user_id, label@, session_id@),
{
    let mut out = "<@".to_owned();
    out.append(decimal_text(user_id).as_str());
    out.append("> `");
    out.append(label);
    out.append("` (`");
    out.append(session_id);
    out.append("`) is now bookable \u{2014} the booking window just opened. Book it in the app.");
    out
}

// ---------------------------------------------------------------------------
// Laws
// ---------------------------------------------------------------------------

/// In the background an attempt is repeated exactly while the slot is not open and the time is
/// not used up, after the interval for it; every other attempt is posted, as what it came to, and
/// ends it.
pub proof fn only_a_closed_slot_is_tried_in_the_background(
    label: &str,
    session_id: &str,
    attempt: Attempt,
    elapsed: u64,
    policy: RetryPolicy,
    r: BackgroundStep,
)
    requires
        call_ensures(background_step, (label, session_id, &attempt, elapsed, policy), r),
    ensures
        r is Wait <==> (attempt matches Attempt::Refused(BookError::SlotNotOpen(_))) && elapsed
            < policy.duration,
        r matches BackgroundStep::Wait(seconds) ==> seconds == policy.interval,
        r matches BackgroundStep::Post(m) ==> match attempt {
            Attempt::Booked => m@ == "Booked `"@ + session_id@ + "` for "@ + label@ + "."@,
            Attempt::Refused(BookError::SlotNotOpen(_)) => m@ == "Booking window expired for "@
                + label@ + "."@,
            Attempt::Refused(BookError::Rejected { status, message }) => m@
                == "Booking failed for "@ + label@ + ": "@ + ("booking rejected ("@ + status@
                + "): "@ + message@),
            _ => m@ == "Booking failed for "@ + label@ + " with an unexpected error."@,
        },
{
}

/// A booking is scheduled exactly where the time is read, lies ahead, and everybody named has an
/// account; otherwise the answer says which of these is wrong, the time first. What is scheduled
/// is for those accounts, and begins when the clock shows the target.
pub proof fn a_booking_is_scheduled_for_its_time(
    session_id: &str,
    target: Result<Moment, WhenError>,
    now: Moment,
    config: Config,
    caller: u64,
    users: Option<&str>,
    r: PrebookStep,
    resolved: Result<Vec<Account>, String>,
)
    requires
        call_ensures(
            prebook_step,
            (session_id, target, &now, &config, caller, users),
            r,
        ),
        call_ensures(resolve_targets, (&config, caller, users), resolved),
    ensures
        ({
            let ahead = target is Ok && (now.at.seconds < target->Ok_0.at.seconds || (
            now.at.seconds == target->Ok_0.at.seconds && now.at.nanos
                < target->Ok_0.at.nanos));
            &&& r is Schedule <==> ahead && resolved is Ok
            &&& target is Err ==> (r matches PrebookStep::Say(m) && m@ == "Invalid time: "@
                + target->Err_0.shown())
            &&& target is Ok && !ahead ==> (r matches PrebookStep::Say(m) && m@
                == "That time is already in the past."@)
            &&& ahead && resolved is Err ==> (r matches PrebookStep::Say(m) && m@
                == resolved->Err_0@)
            &&& r matches PrebookStep::Schedule { reply, wait, accounts } ==> {
                &&& account_views(accounts@) == account_views(resolved->Ok_0@)
                &&& wait.nanos < 1_000_000_000
                &&& target->Ok_0.at.nanos < 1_000_000_000 && now.at.nanos < 1_000_000_000
                    ==> now.at.seconds * 1_000_000_000 + now.at.nanos + (wait.seconds
                    * 1_000_000_000 + wait.nanos) == target->Ok_0.at.seconds * 1_000_000_000
                    + target->Ok_0.at.nanos
                &&& reply@ == "Scheduled: will book `"@ + session_id@ + "` for "@ + joined(
                    account_views(accounts@).map_values(|a: AccountView| a.label),
                    ", "@,
                ) + " at `"@ + shown_moment(target->Ok_0) + "`. I'll post here when done."@
            }
        }),
{
}

/// A time that could not be made out is reported with what was typed.
pub proof fn an_unread_time_is_quoted(e: WhenError, r: String)
    requires
        call_ensures(WhenError::to_text, (&e,), r),
    ensures
        match e {
            WhenError::Ambiguous(s) => r@ == "Ambiguous or invalid local time: "@ + s@,
            WhenError::DateOverflow => r@ == "Date overflow"@,
            WhenError::Unrecognised(s) => r@ == "Unrecognised time format '"@ + s@
                + "'. Use HH:MM or YYYY-MM-DD HH:MM"@,
        },
{
}

/// An alert is set exactly where the window of the session is not open yet: so many hours before
/// its start. It comes when the window opens, pings the user and names the session, and the reply
/// shows the opening in local time. A session without a readable start gets no alert.
pub proof fn an_alert_is_set_for_the_opening(
    user_id: u64,
    session_id: &str,
    label: &str,
    start: Option<Timestamp>,
    hours: i64,
    now: Moment,
    offset: i32,
    r: NotifyStep,
)
    requires
        call_ensures(
            notify_step,
            (user_id, session_id, label, start, hours, &now, offset),
            r,
        ),
        start matches Some(t) ==> t.nanos < 1_000_000_000 && crate::when::MIN_SECONDS <= t.seconds
            - hours * 3600 <= crate::when::MAX_SECONDS,
        now.at.nanos < 1_000_000_000,
    ensures
        start is None ==> (r matches NotifyStep::Say(m) && m@
            == "Couldn't read the start time for `"@ + label@ + "`, so I can't work out its booking window."@),
        start matches Some(t) ==> {
            let left = (t.seconds - hours * 3600 - now.at.seconds) * 1_000_000_000 + (t.nanos
                - now.at.nanos);
            &&& r is Watch <==> left >= 0
            &&& r matches NotifyStep::Say(m) ==> m@ == "`"@ + label@
                + "` is already bookable \u{2014} you can book it in the app now."@
            &&& r matches NotifyStep::Watch { reply, wait, alert } ==> {
                &&& wait.nanos < 1_000_000_000
                &&& wait.seconds * 1_000_000_000 + wait.nanos == left
                &&& alert@ == "<@"@ + decimal(user_id as nat) + "> `"@ + label@ + "` (`"@
                    + session_id@
                    + "`) is now bookable \u{2014} the booking window just opened. Book it in the app."@
                &&& reply@ == "Watching `"@ + label@
                    + "`. I'll ping you here when it opens for booking on `"@
                    + crate::when::instant_rendering(
                    (t.seconds - hours * 3600) as i64,
                    t.nanos,
                    offset,
                    "%Y-%m-%d %H:%M"@,
                ) + "` ("@ + signed_decimal(hours as int) + "h before the session starts)."@
            }
        },
{
}

/// A session starts at the instant that its date writes, and only a session without a date, or
/// with one that writes no instant, has no start.
pub proof fn a_session_starts_when_its_date_says(detail: SessionDetail, r: Option<Timestamp>)
    requires
        call_ensures(session_start, (&detail,), r),
    ensures
        r is Some <==> detail.date is Some && written_instant(detail.date->0@) is Some,
        r matches Some(t) ==> written_instant(detail.date->0@) == Some((t.seconds, t.nanos)),
{
}

/// A request to be alerted goes by the name of the session, or by its id only where it has none,
/// by the moment that the clock shows, and by the local time that applies at the opening.
pub proof fn an_alert_goes_by_the_clock_and_the_name(
    user_id: u64,
    session_id: &str,
    detail: SessionDetail,
    hours: i64,
    r: Option<NotifyStep>,
    label: Seq<char>,
    start: Option<Timestamp>,
)
    requires
        call_ensures(notify, (user_id, session_id, &detail, hours), r),
        label == (match detail.name {
            Some(name) => name@,
            None => session_id@,
        }),
        call_ensures(session_start, (&detail,), start),
    ensures
        r is None ==> (start matches Some(t) && !fits_before(t, hours)),
        r is Some ==> exists|now: Moment, offset: i32|
            {
                &&& clock_shows(now)
                &&& #[trigger] answers_notify(
                    r->0,
                    user_id,
                    session_id@,
                    label,
                    start,
                    hours,
                    now.at,
                    offset,
                )
                &&& start matches Some(t) ==> offset_applies(
                    Timestamp {
                        seconds: hours_before(t, hours).0 as i64,
                        nanos: hours_before(t, hours).1 as u32,
                    },
                    offset,
                )
            },
{
    if let Some(t) = start {
        assert(written_start(detail) == Some((t.seconds, t.nanos)));
        assert(start == Some(Timestamp { seconds: t.seconds, nanos: t.nanos }));
    }
}

/// A request to book at a time is decided by the time as it is read while the clock shows it, and
/// by the moment that the clock shows then.
pub proof fn a_request_goes_by_the_clock(
    session_id: &str,
    when: &str,
    config: Config,
    caller: u64,
    users: Option<&str>,
    r: PrebookStep,
)
    requires
        call_ensures(prebook, (session_id, when, &config, caller, users), r),
    ensures
        exists|target: Result<Moment, WhenError>, read_at: Moment, now: Moment|
            {
                &&& clock_shows(read_at)
                &&& clock_shows(now)
                &&& #[trigger] crate::when::reads_at(when@, read_at, target)
                &&& #[trigger] answers_prebook(
                    r,
                    session_id@,
                    target,
                    now,
                    targets(config, caller, people(users)),
                )
            },
{
    let wanted = targets(config, caller, people(users));
    let (target, now) = choose|target: Result<Moment, WhenError>, now: Moment| #[trigger]
        answers_prebook(r, session_id@, target, now, wanted) && reads_as(when@, target)
            && now.valid() && clock_shows(now);
    let read_at = choose|read_at: Moment|
        read_at.valid() && clock_shows(read_at) && #[trigger] crate::when::reads_at(
            when@,
            read_at,
            target,
        );
    assert(crate::when::reads_at(when@, read_at, target));
    assert(answers_prebook(r, session_id@, target, now, wanted));
}

} // verus!
