//! The dialogues of the command line: what is asked, what follows from the answers, what is
//! shown.
//!
//! Each dialogue is a chain of steps. A step says what to do; the function named for what then
//! happens gives the next step.

use vstd::prelude::*;

use crate::attempts::{join_labels, labels};
use crate::booking::RetryPolicy;
use crate::config::{account_views, Account};
use crate::listing::{
    by_booked, most_recent_first, other_sessions, other_than, sessions_booked_first,
};
use crate::number::{decimal, decimal_text};
use crate::order::is_stable_sort;
use crate::session::{Booking, Session};
use crate::text::joined;
use crate::when::{
    clock_shows, current_moment, nanos_between, parse_when, reads_as, shown_moment, wait_for,
    Moment, Wait, WhenError,
};

verus! {

// ---------------------------------------------------------------------------
// Menus
// ---------------------------------------------------------------------------

/// What the main menu offers.
#[derive(Debug, PartialEq, Eq, Clone, Copy, Structural)]
pub enum Action {
    Book,
    PreBook,
    ManageBookings,
    PreviousSessions,
    Compare,
}

impl Action {
    /// The menu entry of this action.
    pub fn to_text(&self) -> (r: String)
        ensures
            r@ == (match *self {
                Action::Book => "Book a session"@,
                Action::PreBook => "Schedule a booking for a specific time"@,
                Action::ManageBookings => "View / manage bookings"@,
                Action::PreviousSessions => "See previous sessions"@,
                Action::Compare => "Compare participants between two sessions"@,
            }),
    {
        match self {
            Action::Book => "Book a session".to_owned(),
            Action::PreBook => "Schedule a booking for a specific time".to_owned(),
            Action::ManageBookings => "View / manage bookings".to_owned(),
            Action::PreviousSessions => "See previous sessions".to_owned(),
            Action::Compare => "Compare participants between two sessions".to_owned(),
        }
    }
}

/// The main menu: the question, and the actions in order.
pub fn main_menu() -> (r: (String, Vec<Action>))
    ensures
        r.0@ == "What would you like to do?"@,
        r.1@ == seq![
            Action::Book,
            Action::PreBook,
            Action::ManageBookings,
            Action::PreviousSessions,
            Action::Compare,
        ],
{
    let actions = vec![
        Action::Book,
        Action::PreBook,
        Action::ManageBookings,
        Action::PreviousSessions,
        Action::Compare,
    ];
    assert(actions@ =~= seq![
        Action::Book,
        Action::PreBook,
        Action::ManageBookings,
        Action::PreviousSessions,
        Action::Compare,
    ]);
    ("What would you like to do?".to_owned(), actions)
}

/// What can be done with a booking.
#[derive(Debug, PartialEq, Eq, Clone, Copy, Structural)]
pub enum BookingAction {
    ViewInfo,
    Cancel,
}

impl BookingAction {
    /// The menu entry of this action.
    pub fn to_text(&self) -> (r: String)
        ensures
            r@ == (match *self {
                BookingAction::ViewInfo => "View info"@,
                BookingAction::Cancel => "Cancel reservation"@,
            }),
    {
        match self {
            BookingAction::ViewInfo => "View info".to_owned(),
            BookingAction::Cancel => "Cancel reservation".to_owned(),
        }
    }
}

fn quoting(before: &str, quoted: &str, behind: &str) -> (r: String)
    ensures
        r@ == before@ + quoted@ + behind@,
{
    let mut out = before.to_owned();
    out.append(quoted);
    out.append(behind);
    out
}

// ---------------------------------------------------------------------------
// Booking
// ---------------------------------------------------------------------------

/// A step of booking.
pub enum BookStep {
    /// List the sessions that can be booked.
    Search,
    /// Show this, wait so many seconds, and list again.
    SearchAgain { notice: String, wait: u64 },
    /// Let one of the sessions be picked.
    PickSession { prompt: String, from: Vec<Session> },
    /// Find out whom to book for; `confirm` tells whether to ask for confirmation then.
    ChooseTargets { prompt: String, session: Session, confirm: bool },
    /// Ask for confirmation.
    Confirm { prompt: String, default: bool, session: Session, targets: Vec<Account> },
    /// Book for each of the accounts.
    Book { session: Session, targets: Vec<Account> },
    /// Show this; the dialogue is over.
    Say(String),
    /// Fail with this.
    Fail(String),
}

/// Begins booking: a session given by its id needs no search and no confirmation.
pub fn begin_book(session_id: Option<String>) -> (r: BookStep)
    ensures
        match session_id {
            Some(id) => r matches BookStep::ChooseTargets { prompt, session, confirm } && prompt@
                == "Book for whom?"@ && session.is_only(id) && !confirm,
            None => r is Search,
        },
{
    match session_id {
        Some(id) => BookStep::ChooseTargets {
            prompt: "Book for whom?".to_owned(),
            session: Session::from_id(id),
            confirm: false,
        },
        None => BookStep::Search,
    }
}

/// The sessions that can be booked are listed, `elapsed` seconds after the search began: as long
/// as there are none, the search goes on until the time for that is used up.
pub fn sessions_found(sessions: Vec<Session>, elapsed: u64, policy: RetryPolicy) -> (r: BookStep)
    ensures
        if sessions@.len() > 0 {
            r matches BookStep::PickSession { prompt, from } && prompt@
                == "Select a session to book:"@ && from == sessions
        } else if policy.expired(elapsed) {
            r matches BookStep::Fail(m) && m@ == "Session not found after retries."@
        } else {
            r matches BookStep::SearchAgain { notice, wait } && wait == policy.interval && notice@
                == "No matching session yet. Retrying in "@ + decimal(policy.interval as nat)
                + "s..."@
        },
{
    if !sessions.is_empty() {
        return BookStep::PickSession {
            prompt: "Select a session to book:".to_owned(),
            from: sessions,
        };
    }
    if elapsed >= policy.duration {
        return BookStep::Fail("Session not found after retries.".to_owned());
    }
    BookStep::SearchAgain {
        notice: quoting(
            "No matching session yet. Retrying in ",
            decimal_text(policy.interval).as_str(),
            "s...",
        ),
        wait: policy.interval,
    }
}

/// A session is picked.
pub fn session_picked(session: Session) -> (r: BookStep)
    ensures
        r matches BookStep::ChooseTargets { prompt, session: s, confirm } && prompt@
            == "Book for whom?"@ && s == session && confirm,
{
    BookStep::ChooseTargets { prompt: "Book for whom?".to_owned(), session, confirm: true }
}

/// The accounts to book for are chosen.
pub fn book_targets_chosen(session: Session, targets: Vec<Account>, confirm: bool) -> (r: BookStep)
    ensures
        if confirm {
            r matches BookStep::Confirm { prompt, default, session: s, targets: t } && prompt@
                == "Book '"@ + session.shown() + "'?"@ && default && s == session && t == targets
        } else {
            r == (BookStep::Book { session, targets })
        },
{
    if confirm {
        let prompt = quoting("Book '", session.to_text().as_str(), "'?");
        BookStep::Confirm { prompt, default: true, session, targets }
    } else {
        BookStep::Book { session, targets }
    }
}

/// The question whether to book is answered.
pub fn book_answered(session: Session, targets: Vec<Account>, yes: bool) -> (r: BookStep)
    ensures
        if yes {
            r == (BookStep::Book { session, targets })
        } else {
            r matches BookStep::Say(m) && m@ == "Booking cancelled."@
        },
{
    if yes {
        BookStep::Book { session, targets }
    } else {
        BookStep::Say("Booking cancelled.".to_owned())
    }
}

// ---------------------------------------------------------------------------
// Booking at a given time
// ---------------------------------------------------------------------------

/// A step of scheduling a booking.
pub enum ScheduleStep {
    /// Find out whom to book for.
    ChooseTargets { prompt: String, session_id: Option<String> },
    /// List the sessions that can be booked.
    Search { targets: Vec<Account> },
    /// Let one of the sessions be picked.
    PickSession { prompt: String, from: Vec<Session>, targets: Vec<Account> },
    /// Let a session id be typed.
    EnterSession { prompt: String, targets: Vec<Account> },
    /// Ask when to book.
    AskWhen { prompt: String, session: Session, targets: Vec<Account> },
    /// Show the notice, wait, show the other one, then book for each of the accounts.
    Wait {
        notice: String,
        wait: Wait,
        then_notice: String,
        session: Session,
        targets: Vec<Account>,
    },
    /// Fail with this.
    Fail(String),
}

/// Begins scheduling a booking: whom it is for comes before everything else.
pub fn begin_schedule(session_id: Option<String>) -> (r: ScheduleStep)
    ensures
        r matches ScheduleStep::ChooseTargets { prompt, session_id: id } && prompt@
            == "Book for whom?"@ && id == session_id,
{
    ScheduleStep::ChooseTargets { prompt: "Book for whom?".to_owned(), session_id }
}

/// The sessions that can be booked are listed: without any, the id is asked for.
pub fn schedule_sessions_found(sessions: Vec<Session>, targets: Vec<Account>) -> (r: ScheduleStep)
    ensures
        if sessions@.len() > 0 {
            r matches ScheduleStep::PickSession { prompt, from, targets: t } && prompt@
                == "Select a session to book:"@ && from == sessions && t == targets
        } else {
            r matches ScheduleStep::EnterSession { prompt, targets: t } && prompt@
                == "No sessions found. Enter session ID manually:"@ && t == targets
        },
{
    if sessions.is_empty() {
        ScheduleStep::EnterSession {
            prompt: "No sessions found. Enter session ID manually:".to_owned(),
            targets,
        }
    } else {
        ScheduleStep::PickSession {
            prompt: "Select a session to book:".to_owned(),
            from: sessions,
            targets,
        }
    }
}

/// Whether `r` is the step that follows from a target time, at `now`.
pub open spec fn follows_from_time(
    r: ScheduleStep,
    session: Session,
    targets: Vec<Account>,
    target: Result<Moment, WhenError>,
    now: Moment,
) -> bool {
    match target {
        Err(e) => r matches ScheduleStep::Fail(m) && m@ == e.shown(),
        Ok(at) => if !now.at.before(at.at) {
            r matches ScheduleStep::Fail(m) && m@ == "Target time is already in the past"@
        } else {
            &&& r matches ScheduleStep::Wait { notice, wait, then_notice, session: s, targets: t }
            &&& s == session
            &&& t == targets
            &&& wait.total() == nanos_between(at.at, now.at)
            &&& wait.nanos < 1_000_000_000
            &&& notice@ == "Will book '"@ + session.shown() + "' at "@ + shown_moment(at)
                + ". Waiting..."@
            &&& then_notice@ == "Target time reached. Booking now..."@
        },
    }
}

/// The target time is read.
pub fn time_read(
    session: Session,
    targets: Vec<Account>,
    target: Result<Moment, WhenError>,
    now: &Moment,
) -> (r: ScheduleStep)
    requires
        target matches Ok(m) ==> m.valid(),
        now.valid(),
        now.at.nanos < 1_000_000_000,
    ensures
        follows_from_time(r, session, targets, target, *now),
{
    let at = match target {
        Ok(at) => at,
        Err(e) => {
            return ScheduleStep::Fail(e.to_text());
        },
    };
    match wait_for(&at, now) {
        None => ScheduleStep::Fail("Target time is already in the past".to_owned()),
        Some(wait) => {
            let mut notice = quoting("Will book '", session.to_text().as_str(), "' at ");
            notice.append(at.to_text().as_str());
            notice.append(". Waiting...");
            ScheduleStep::Wait {
                notice,
                wait,
                then_notice: "Target time reached. Booking now...".to_owned(),
                session,
                targets,
            }
        },
    }
}

/// Whether `r` follows from some reading of a text as a time, at some moment.
pub open spec fn follows_from_when(
    r: ScheduleStep,
    session: Session,
    targets: Vec<Account>,
    when: Seq<char>,
) -> bool {
    exists|target: Result<Moment, WhenError>, now: Moment| #[trigger]
        follows_from_time(r, session, targets, target, now) && reads_as(when, target)
            && now.valid() && clock_shows(now)
}

/// The time to book at is typed.
pub fn when_entered(session: Session, targets: Vec<Account>, when: &str) -> (r: ScheduleStep)
    ensures
        follows_from_when(r, session, targets, when@),
{
    let target = parse_when(when);
    let now = current_moment();
    let ghost read = target;
    let ghost of = session;
    let ghost whom = targets;
    let step = time_read(session, targets, target, &now);
    assert(follows_from_time(step, of, whom, read, now) && reads_as(when@, read) && now.valid()
        && clock_shows(now));
    step
}

/// Whether `r` follows from a session and a time: a time that is given already is not asked for.
pub open spec fn follows_from_session(
    r: ScheduleStep,
    session: Session,
    targets: Vec<Account>,
    when: Option<&str>,
) -> bool {
    match when {
        Some(text) => follows_from_when(r, session, targets, text@),
        None => r matches ScheduleStep::AskWhen { prompt, session: s, targets: t } && prompt@
            == "When to book? (HH:MM or YYYY-MM-DD HH:MM, local time):"@ && s == session && t
            == targets,
    }
}

/// A session is picked, or typed by its id.
pub fn schedule_session_picked(session: Session, targets: Vec<Account>, when: Option<&str>) -> (r:
    ScheduleStep)
    ensures
        follows_from_session(r, session, targets, when),
{
    match when {
        Some(text) => when_entered(session, targets, text),
        None => ScheduleStep::AskWhen {
            prompt: "When to book? (HH:MM or YYYY-MM-DD HH:MM, local time):".to_owned(),
            session,
            targets,
        },
    }
}

/// The accounts to book for are chosen: a session given by its id needs no search.
pub fn schedule_targets_chosen(
    session_id: Option<String>,
    targets: Vec<Account>,
    when: Option<&str>,
) -> (r: ScheduleStep)
    ensures
        match session_id {
            Some(id) => exists|session: Session|
                #![trigger follows_from_session(r, session, targets, when)]
                session.is_only(id) && follows_from_session(r, session, targets, when),
            None => r == (ScheduleStep::Search { targets }),
        },
{
    match session_id {
        Some(id) => {
            let session = Session::from_id(id);
            let ghost of = session;
            let ghost whom = targets;
            let step = schedule_session_picked(session, targets, when);
            assert(follows_from_session(step, of, whom, when));
            step
        },
        None => ScheduleStep::Search { targets },
    }
}

// ---------------------------------------------------------------------------
// Managing bookings
// ---------------------------------------------------------------------------

/// A step of managing bookings.
pub enum ManageStep {
    /// Let one of the bookings be picked.
    PickBooking { prompt: String, from: Vec<Booking> },
    /// Let it be picked what to do with the booking.
    PickAction { prompt: String, actions: Vec<BookingAction>, booking: Booking },
    /// Fetch and show the detail of this session.
    ShowSession(String),
    /// Find out whom to cancel for.
    ChooseTargets { prompt: String, booking: Booking },
    /// Ask for confirmation.
    Confirm { prompt: String, default: bool, booking: Booking, targets: Vec<Account> },
    /// Cancel the booking of this session for each of the accounts.
    Cancel { session_id: String, targets: Vec<Account> },
    /// Show this; the dialogue is over.
    Say(String),
}

/// The upcoming bookings are listed.
pub fn bookings_listed(bookings: Vec<Booking>) -> (r: ManageStep)
    ensures
        if bookings@.len() == 0 {
            r matches ManageStep::Say(m) && m@ == "No upcoming bookings found."@
        } else {
            r matches ManageStep::PickBooking { prompt, from } && prompt@ == "Select a booking:"@
                && from == bookings
        },
{
    if bookings.is_empty() {
        ManageStep::Say("No upcoming bookings found.".to_owned())
    } else {
        ManageStep::PickBooking { prompt: "Select a booking:".to_owned(), from: bookings }
    }
}

/// A booking is picked.
pub fn booking_picked(booking: Booking) -> (r: ManageStep)
    ensures
        r matches ManageStep::PickAction { prompt, actions, booking: b } && prompt@
            == "What would you like to do with '"@ + booking.shown() + "'?"@ && actions@ == seq![
            BookingAction::ViewInfo,
            BookingAction::Cancel,
        ] && b == booking,
{
    let actions = vec![BookingAction::ViewInfo, BookingAction::Cancel];
    assert(actions@ =~= seq![BookingAction::ViewInfo, BookingAction::Cancel]);
    let prompt = quoting("What would you like to do with '", booking.to_text().as_str(), "'?");
    ManageStep::PickAction { prompt, actions, booking }
}

/// It is picked what to do with the booking.
pub fn action_picked(booking: Booking, action: BookingAction) -> (r: ManageStep)
    ensures
        match action {
            BookingAction::ViewInfo => r == ManageStep::ShowSession(booking.session_id),
            BookingAction::Cancel => r matches ManageStep::ChooseTargets { prompt, booking: b }
                && prompt@ == "Cancel for whom?"@ && b == booking,
        },
{
    match action {
        BookingAction::ViewInfo => ManageStep::ShowSession(booking.session_id),
        BookingAction::Cancel => ManageStep::ChooseTargets {
            prompt: "Cancel for whom?".to_owned(),
            booking,
        },
    }
}

/// The accounts to cancel for are chosen; several are named in the question.
pub fn cancel_targets_chosen(booking: Booking, targets: Vec<Account>) -> (r: ManageStep)
    ensures
        r matches ManageStep::Confirm { prompt, default, booking: b, targets: t } && !default && b
            == booking && t == targets && prompt@ == "Cancel '"@ + booking.shown() + (
        if targets@.len() > 1 {
            "' for "@ + joined(labels(account_views(targets@)), ", "@) + "?"@
        } else {
            "'?"@
        }),
{
    let mut prompt = "Cancel '".to_owned();
    prompt.append(booking.to_text().as_str());
    let ghost named = prompt@;
    if targets.len() > 1 {
        prompt.append("' for ");
        prompt.append(join_labels(&targets).as_str());
        prompt.append("?");
        assert(prompt@ =~= named + ("' for "@ + joined(labels(account_views(targets@)), ", "@)
            + "?"@));
    } else {
        prompt.append("'?");
    }
    ManageStep::Confirm { prompt, default: false, booking, targets }
}

/// The question whether to cancel is answered: nothing is cancelled without a yes.
pub fn cancel_answered(booking: Booking, targets: Vec<Account>, yes: bool) -> (r: ManageStep)
    ensures
        if yes {
            r == (ManageStep::Cancel { session_id: booking.session_id, targets })
        } else {
            r matches ManageStep::Say(m) && m@ == "Cancellation aborted."@
        },
{
    if yes {
        ManageStep::Cancel { session_id: booking.session_id, targets }
    } else {
        ManageStep::Say("Cancellation aborted.".to_owned())
    }
}

/// The past bookings are listed: they are offered most recent first.
pub fn previous_listed(bookings: Vec<Booking>) -> (r: ManageStep)
    ensures
        if bookings@.len() == 0 {
            r matches ManageStep::Say(m) && m@ == "No previous sessions found."@
        } else {
            r matches ManageStep::PickBooking { prompt, from } && prompt@
                == "Select a previous session:"@ && from@ == bookings@.reverse()
        },
{
    let recent = most_recent_first(bookings);
    if recent.is_empty() {
        ManageStep::Say("No previous sessions found.".to_owned())
    } else {
        ManageStep::PickBooking { prompt: "Select a previous session:".to_owned(), from: recent }
    }
}

// ---------------------------------------------------------------------------
// Comparing sessions
// ---------------------------------------------------------------------------

/// A step of comparing sessions.
pub enum CompareStep {
    /// Let one of the sessions be picked.
    PickSession { prompt: String, from: Vec<Session> },
    /// Fail with this.
    Fail(String),
}

/// The sessions are listed, to pick the first one: booked sessions are offered first.
pub fn first_choices(sessions: Vec<Session>, bookings: &Vec<Booking>) -> (r: CompareStep)
    ensures
        if sessions@.len() == 0 {
            r matches CompareStep::Fail(m) && m@ == "No sessions available"@
        } else {
            r matches CompareStep::PickSession { prompt, from } && prompt@ == "Select session A:"@
                && is_stable_sort(sessions@, by_booked(bookings@), from@)
        },
{
    if sessions.is_empty() {
        return CompareStep::Fail("No sessions available".to_owned());
    }
    let from = sessions_booked_first(sessions, bookings);
    CompareStep::PickSession { prompt: "Select session A:".to_owned(), from }
}

/// Whether choices are the sessions but one, booked sessions first.
pub open spec fn offers_others(
    from: Seq<Session>,
    sessions: Seq<Session>,
    bookings: Seq<Booking>,
    id: Seq<char>,
) -> bool {
    exists|sorted: Seq<Session>| #[trigger]
        is_stable_sort(sessions, by_booked(bookings), sorted) && from == sorted.filter(
            other_than(id),
        )
}

/// The sessions are listed, to pick the second one: the first is not offered again.
pub fn second_choices(sessions: Vec<Session>, bookings: &Vec<Booking>, first: &str) -> (r:
    CompareStep)
    ensures
        match r {
            CompareStep::PickSession { prompt, from } => prompt@ == "Select session B:"@
                && from@.len() > 0 && offers_others(from@, sessions@, bookings@, first@),
            CompareStep::Fail(m) => m@ == "No other sessions available"@ && offers_others(
                Seq::empty(),
                sessions@,
                bookings@,
                first@,
            ),
        },
{
    let ghost all = sessions@;
    let sorted = sessions_booked_first(sessions, bookings);
    let ghost ordered = sorted@;
    let from = other_sessions(sorted, first);
    assert(is_stable_sort(all, by_booked(bookings@), ordered) && from@ == ordered.filter(
        other_than(first@),
    ));
    if from.is_empty() {
        assert(from@ =~= Seq::empty());
        return CompareStep::Fail("No other sessions available".to_owned());
    }
    CompareStep::PickSession { prompt: "Select session B:".to_owned(), from }
}

/// A comparison by the picker is never of a session with itself.
pub proof fn second_choice_differs(
    from: Seq<Session>,
    sessions: Seq<Session>,
    bookings: Seq<Booking>,
    first: Seq<char>,
    i: int,
)
    requires
        offers_others(from, sessions, bookings, first),
        0 <= i < from.len(),
    ensures
        from[i].id@ != first,
{
    let sorted = choose|sorted: Seq<Session>| #[trigger]
        is_stable_sort(sessions, by_booked(bookings), sorted) && from == sorted.filter(
            other_than(first),
        );
    sorted.lemma_filter_pred(other_than(first), i);
}

// ---------------------------------------------------------------------------
// Reports on each account
// ---------------------------------------------------------------------------

/// The heading above an account's report, where there are several accounts.
pub fn account_heading(label: &str, several: bool) -> (r: Option<String>)
    ensures
        if several {
            r matches Some(m) && m@ == "--- "@ + label@ + " ---"@
        } else {
            r is None
        },
{
    if several {
        Some(quoting("--- ", label, " ---"))
    } else {
        None
    }
}

/// An account could not be signed in.
pub fn sign_in_failure(error: &str) -> (r: String)
    ensures
        r@ == "authentication failed: "@ + error@,
{
    let mut out = "authentication failed: ".to_owned();
    out.append(error);
    out
}

/// The failure of an account's booking, with the account's label where there are several.
pub fn booking_failure(label: &str, error: &str, several: bool) -> (r: String)
    ensures
        r@ == (if several {
            label@ + ": "@ + error@
        } else {
            error@
        }),
{
    if several {
        quoting(label, ": ", error)
    } else {
        error.to_owned()
    }
}

/// What cancelling for an account came to: what is shown, or what is shown as an error.
pub fn cancel_outcome(label: &str, result: &Result<Option<String>, String>) -> (r: Result<
    String,
    String,
>)
    ensures
        match *result {
            Ok(Some(id)) => r matches Ok(m) && m@ == "Cancelled booking "@ + id@ + " for "@
                + label@ + "."@,
            Ok(None) => r matches Ok(m) && m@ == "No booking for "@ + label@
                + " on this session."@,
            Err(e) => r matches Err(m) && m@ == label@ + ": "@ + e@,
        },
{
    match result {
        Ok(Some(id)) => {
            let mut out = quoting("Cancelled booking ", id.as_str(), " for ");
            out.append(label);
            out.append(".");
            Ok(out)
        },
        Ok(None) => Ok(quoting("No booking for ", label, " on this session.")),
        Err(e) => Err(quoting(label, ": ", e.as_str())),
    }
}

// ---------------------------------------------------------------------------
// Laws
// ---------------------------------------------------------------------------

/// Nothing that was picked is booked without a yes, and nothing is cancelled without one; with a
/// yes it is for exactly the accounts and the session that were asked about.
pub proof fn nothing_happens_without_a_yes(
    session: Session,
    booking: Booking,
    targets: Vec<Account>,
    yes: bool,
    booked: BookStep,
    cancelled: ManageStep,
)
    requires
        call_ensures(book_answered, (session, targets, yes), booked),
        call_ensures(cancel_answered, (booking, targets, yes), cancelled),
    ensures
        booked is Book <==> yes,
        booked matches BookStep::Book { session: s, targets: t } ==> s == session && t == targets,
        cancelled is Cancel <==> yes,
        cancelled matches ManageStep::Cancel { session_id, targets: t } ==> session_id@
            == booking.session_id@ && t == targets,
{
}

/// A session that was picked from the listing is confirmed before it is booked, one that was given
/// by its id is not; either way it is booked for the accounts that were chosen.
pub proof fn a_picked_session_is_confirmed(
    id: String,
    picked: Session,
    given: BookStep,
    chosen: BookStep,
    session: Session,
    targets: Vec<Account>,
    confirm: bool,
    next: BookStep,
)
    requires
        call_ensures(begin_book, (Some(id),), given),
        call_ensures(session_picked, (picked,), chosen),
        call_ensures(book_targets_chosen, (session, targets, confirm), next),
    ensures
        given matches BookStep::ChooseTargets { session: s, confirm: c, .. } && s.id@ == id@ && !c,
        chosen matches BookStep::ChooseTargets { session: s, confirm: c, .. } && s == picked && c,
        confirm ==> (next matches BookStep::Confirm { session: s, targets: t, .. } && s == session
            && t == targets),
        !confirm ==> (next matches BookStep::Book { session: s, targets: t } && s == session && t
            == targets),
{
}

/// The search for sessions goes on exactly as long as none is found and the time for it is not
/// used up, and offers everything that is found.
pub proof fn the_search_goes_on_while_nothing_is_found(
    sessions: Vec<Session>,
    elapsed: u64,
    policy: RetryPolicy,
    r: BookStep,
)
    requires
        call_ensures(sessions_found, (sessions, elapsed, policy), r),
    ensures
        r is PickSession <==> sessions@.len() > 0,
        r matches BookStep::PickSession { from, .. } ==> from@ == sessions@,
        r is SearchAgain <==> sessions@.len() == 0 && elapsed < policy.duration,
        r matches BookStep::SearchAgain { wait, .. } ==> wait == policy.interval,
        r is Fail <==> sessions@.len() == 0 && elapsed >= policy.duration,
{
}

/// A scheduled booking waits exactly where its time is read and lies ahead, until then, for the
/// session and the accounts that were chosen; otherwise it fails.
pub proof fn a_scheduled_booking_waits_for_its_time(
    session: Session,
    targets: Vec<Account>,
    target: Result<Moment, WhenError>,
    now: Moment,
    r: ScheduleStep,
)
    requires
        call_ensures(time_read, (session, targets, target, &now), r),
    ensures
        ({
            let ahead = target is Ok && (now.at.seconds < target->Ok_0.at.seconds || (
            now.at.seconds == target->Ok_0.at.seconds && now.at.nanos
                < target->Ok_0.at.nanos));
            &&& ahead <==> r is Wait
            &&& !ahead <==> r is Fail
            &&& target is Err ==> (r matches ScheduleStep::Fail(m) && m@
                == target->Err_0.shown())
            &&& r matches ScheduleStep::Wait {
                notice,
                wait,
                then_notice,
                session: s,
                targets: t,
            } ==> {
                &&& s == session
                &&& t == targets
                &&& wait.nanos < 1_000_000_000
                &&& target->Ok_0.at.nanos < 1_000_000_000 && now.at.nanos < 1_000_000_000
                    ==> now.at.seconds * 1_000_000_000 + now.at.nanos + (wait.seconds
                    * 1_000_000_000 + wait.nanos) == target->Ok_0.at.seconds * 1_000_000_000
                    + target->Ok_0.at.nanos
                &&& notice@ == "Will book '"@ + session.shown() + "' at "@ + shown_moment(
                    target->Ok_0,
                ) + ". Waiting..."@
            }
        }),
{
}

/// A typed time is read while the clock shows it, and what follows goes by what the clock shows
/// then.
pub proof fn a_typed_time_goes_by_the_clock(
    session: Session,
    targets: Vec<Account>,
    when: &str,
    r: ScheduleStep,
)
    requires
        call_ensures(when_entered, (session, targets, when), r),
    ensures
        exists|target: Result<Moment, WhenError>, read_at: Moment, now: Moment|
            {
                &&& clock_shows(read_at)
                &&& clock_shows(now)
                &&& #[trigger] crate::when::reads_at(when@, read_at, target)
                &&& #[trigger] follows_from_time(r, session, targets, target, now)
            },
{
    let (target, now) = choose|target: Result<Moment, WhenError>, now: Moment| #[trigger]
        follows_from_time(r, session, targets, target, now) && reads_as(when@, target)
            && now.valid() && clock_shows(now);
    let read_at = choose|read_at: Moment|
        read_at.valid() && clock_shows(read_at) && #[trigger] crate::when::reads_at(
            when@,
            read_at,
            target,
        );
    assert(crate::when::reads_at(when@, read_at, target));
    assert(follows_from_time(r, session, targets, target, now));
}

/// Scheduling asks whom to book for before anything else, and searches only where no session is
/// given; the accounts that were chosen stay the same throughout.
pub proof fn scheduling_begins_with_the_accounts(
    session_id: Option<String>,
    targets: Vec<Account>,
    when: Option<&str>,
    sessions: Vec<Session>,
    first: ScheduleStep,
    second: ScheduleStep,
    third: ScheduleStep,
)
    requires
        call_ensures(begin_schedule, (session_id,), first),
        call_ensures(schedule_targets_chosen, (session_id, targets, when), second),
        call_ensures(schedule_sessions_found, (sessions, targets), third),
    ensures
        first matches ScheduleStep::ChooseTargets { session_id: id, .. } && id == session_id,
        second is Search <==> session_id is None,
        second matches ScheduleStep::Search { targets: t } ==> t == targets,
        session_id is Some && when is None ==> (second matches ScheduleStep::AskWhen {
            session,
            targets: t,
            ..
        } && session.id@ == session_id->0@ && t == targets),
        sessions@.len() > 0 ==> (third matches ScheduleStep::PickSession { from, targets: t, .. }
            && from@ == sessions@ && t == targets),
        sessions@.len() == 0 ==> (third matches ScheduleStep::EnterSession { targets: t, .. } && t
            == targets),
{
}

/// Every booking that is listed is offered, past ones with the last in front, and an action is
/// for the booking that was picked.
pub proof fn listed_bookings_are_offered(
    bookings: Vec<Booking>,
    upcoming: ManageStep,
    past: ManageStep,
    booking: Booking,
    view: ManageStep,
    cancel: ManageStep,
)
    requires
        call_ensures(bookings_listed, (bookings,), upcoming),
        call_ensures(previous_listed, (bookings,), past),
        call_ensures(action_picked, (booking, BookingAction::ViewInfo), view),
        call_ensures(action_picked, (booking, BookingAction::Cancel), cancel),
    ensures
        bookings@.len() == 0 ==> upcoming is Say && past is Say,
        bookings@.len() > 0 ==> (upcoming matches ManageStep::PickBooking { from, .. } && from@
            == bookings@),
        bookings@.len() > 0 ==> (past matches ManageStep::PickBooking { from, .. } && from@.len()
            == bookings@.len() && forall|i: int|
            0 <= i < from@.len() ==> #[trigger] from@[i] == bookings@[bookings@.len() - 1 - i]),
        view matches ManageStep::ShowSession(id) && id@ == booking.session_id@,
        cancel matches ManageStep::ChooseTargets { booking: b, .. } && b == booking,
{
}

/// What is reported of an account names it where it has to be told from others, and never hides
/// a failure.
pub proof fn each_accounts_outcome_is_reported(
    label: &str,
    error: &str,
    several: bool,
    failure: String,
    result: Result<Option<String>, String>,
    outcome: Result<String, String>,
)
    requires
        call_ensures(booking_failure, (label, error, several), failure),
        call_ensures(cancel_outcome, (label, &result), outcome),
    ensures
        several ==> failure@ == label@ + ": "@ + error@,
        !several ==> failure@ == error@,
        outcome is Err <==> result is Err,
        result matches Err(e) ==> outcome->Err_0@ == label@ + ": "@ + e@,
        result matches Ok(Some(id)) ==> outcome->Ok_0@ == "Cancelled booking "@ + id@ + " for "@
            + label@ + "."@,
        result matches Ok(None) ==> outcome->Ok_0@ == "No booking for "@ + label@
            + " on this session."@,
{
}

/// For a comparison every session is offered first, and then every one but that which was picked,
/// sessions of which there is a booking in front of those of which there is none; it fails exactly
/// where there is nothing to offer.
#[verifier::spinoff_prover]
#[verifier::rlimit(40)]
pub proof fn a_comparison_offers_every_other_session(
    sessions: Vec<Session>,
    bookings: Vec<Booking>,
    first: &str,
    a: CompareStep,
    b: CompareStep,
)
    requires
        call_ensures(first_choices, (sessions, &bookings), a),
        call_ensures(second_choices, (sessions, &bookings, first), b),
    ensures
        a is Fail <==> sessions@.len() == 0,
        a matches CompareStep::PickSession { from, .. } ==> {
            &&& from@.len() == sessions@.len()
            &&& forall|s: Session| #[trigger] from@.contains(s) <==> sessions@.contains(s)
            &&& forall|i: int, j: int|
                0 <= i < j < from@.len() && crate::listing::is_booked(
                    bookings@,
                    (#[trigger] from@[j]).id@,
                ) ==> crate::listing::is_booked(bookings@, (#[trigger] from@[i]).id@)
        },
        b is Fail <==> forall|s: Session| #[trigger] sessions@.contains(s) ==> s.id@ == first@,
        b matches CompareStep::PickSession { from, .. } ==> forall|s: Session| #[trigger]
            from@.contains(s) <==> sessions@.contains(s) && s.id@ != first@,
{
    let key = by_booked(bookings@);
    if let CompareStep::PickSession { prompt, from } = a {
        assert forall|s: Session| #[trigger] from@.contains(s) <==> sessions@.contains(s) by {
            crate::session::ordering_keeps_the_entries(sessions@, key, from@, s);
        }
        let order = choose|order: Seq<int>| #[trigger]
            crate::order::sorts_by(sessions@, key, from@, order);
        assert forall|i: int, j: int|
            0 <= i < j < from@.len() && crate::listing::is_booked(
                bookings@,
                (#[trigger] from@[j]).id@,
            ) implies crate::listing::is_booked(bookings@, (#[trigger] from@[i]).id@) by {
            crate::listing::booked_sessions_come_first(
                sessions@,
                bookings@,
                from@,
                order,
                i,
                j,
            );
        }
    }
    let left = match b {
        CompareStep::PickSession { prompt, from } => from@,
        CompareStep::Fail(_) => Seq::empty(),
    };
    assert(offers_others(left, sessions@, bookings@, first@));
    let sorted = choose|sorted: Seq<Session>| #[trigger]
        is_stable_sort(sessions@, key, sorted) && left == sorted.filter(other_than(first@));
    assert forall|s: Session| #[trigger] left.contains(s) <==> sessions@.contains(s) && s.id@
        != first@ by {
        let wanted = other_than(first@);
        crate::session::ordering_keeps_the_entries(sessions@, key, sorted, s);
        if left.contains(s) {
            let i = choose|i: int| 0 <= i < left.len() && left[i] == s;
            sorted.lemma_filter_pred(wanted, i);
            sorted.lemma_filter_contains_rev(wanted, s);
        }
        if sorted.contains(s) && s.id@ != first@ {
            let i = choose|i: int| 0 <= i < sorted.len() && sorted[i] == s;
            sorted.lemma_filter_contains(wanted, i);
        }
    }
    if left.len() > 0 {
        assert(left.contains(left[0]));
        assert(sessions@.contains(left[0]));
    } else {
        assert forall|s: Session| #[trigger] sessions@.contains(s) implies s.id@ == first@ by {
            assert(!left.contains(s));
        }
    }
}

/// The question before cancelling names the booking, and the accounts where there are several; the
/// one before booking names the session. Cancelling is not what happens by default, booking is.
pub proof fn questions_name_what_they_are_about(
    session: Session,
    booking: Booking,
    targets: Vec<Account>,
    book: BookStep,
    cancel: ManageStep,
)
    requires
        call_ensures(book_targets_chosen, (session, targets, true), book),
        call_ensures(cancel_targets_chosen, (booking, targets), cancel),
    ensures
        book matches BookStep::Confirm { prompt, default, .. } && default && prompt@ == "Book '"@
            + session.shown() + "'?"@,
        cancel matches ManageStep::Confirm { prompt, default, booking: b, targets: t } && !default
            && b == booking && t == targets && prompt@ == "Cancel '"@ + booking.shown() + (
        if targets@.len() > 1 {
            "' for "@ + joined(targets@.map_values(|a: Account| a.label@), ", "@) + "?"@
        } else {
            "'?"@
        }),
{
    assert(labels(account_views(targets@)) =~= targets@.map_values(|a: Account| a.label@));
}

} // verus!
