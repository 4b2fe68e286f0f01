//! Watching: sessions that appear in the listing, and sessions that cannot be booked yet.

use vstd::prelude::*;

use crate::attempts::{join_labels, labels, Attempt};
use crate::booking::{BookError, RetryPolicy};
use crate::config::{account_views, Account};
use crate::message::{format_session, session_text};
use crate::number::{decimal, decimal_text};
use crate::order::{is_stable_sort, sorting_keeps_every_entry, sorts_by};
use crate::schedule::{settle_post, settled_post};
use crate::session::{by_date, sort_sessions_by_date, Session};
use crate::text::{joined, texts};
use crate::when::{
    fits_before, hours_before, nanos_between, time_until, window_opening, Moment, Timestamp, Wait,
};

verus! {

// ---------------------------------------------------------------------------
// Sessions that appear in the listing
// ---------------------------------------------------------------------------

/// The ids of sessions.
pub open spec fn session_ids(sessions: Seq<Session>) -> Seq<Seq<char>> {
    sessions.map_values(|s: Session| s.id@)
}

/// Whether a session's id is none of those known.
pub open spec fn unknown(known: Seq<Seq<char>>) -> spec_fn(Session) -> bool {
    |s: Session| !known.contains(s.id@)
}

/// The announcement of a session.
pub open spec fn announcement() -> spec_fn(Session) -> Seq<char> {
    |s: Session| "New session available: "@ + session_text(s) + " (`"@ + s.id@ + "`)"@
}

/// Whether messages announce sessions, in the order of their dates.
pub open spec fn announces(messages: Seq<Seq<char>>, fresh: Seq<Session>) -> bool {
    exists|sorted: Seq<Session>| #[trigger]
        is_stable_sort(fresh, by_date(), sorted) && messages == sorted.map_values(announcement())
}

/// Remembers the sessions of the last poll of the listing.
pub struct NewSessions {
    known: Option<Vec<String>>,
}

impl View for NewSessions {
    type V = Option<Seq<Seq<char>>>;

    closed spec fn view(&self) -> Option<Seq<Seq<char>>> {
        match self.known {
            Some(ids) => Some(texts(ids@)),
            None => None,
        }
    }
}

fn is_known(ids: &Vec<String>, id: &str) -> (r: bool)
    ensures
        r == texts(ids@).contains(id@),
{
    let mut i: usize = 0;
    while i < ids.len()
        invariant
            i <= ids.len(),
            forall|j: int| 0 <= j < i ==> #[trigger] texts(ids@)[j] != id@,
        decreases ids.len() - i,
    {
        assert(texts(ids@)[i as int] == ids@[i as int]@);
        if crate::text::same_text(ids[i].as_str(), id) {
            return true;
        }
        i = i + 1;
    }
    false
}

fn ids_of(sessions: &Vec<Session>) -> (r: Vec<String>)
    ensures
        texts(r@) == session_ids(sessions@),
{
    let mut out: Vec<String> = Vec::new();
    let mut i: usize = 0;
    while i < sessions.len()
        invariant
            i <= sessions.len(),
            texts(out@) == session_ids(sessions@.take(i as int)),
        decreases sessions.len() - i,
    {
        let ghost before = texts(out@);
        out.push(sessions[i].id.clone());
        proof {
            assert(texts(out@) =~= before.push(sessions@[i as int].id@));
            assert(session_ids(sessions@.take(i + 1)) =~= before.push(sessions@[i as int].id@));
        }
        i = i + 1;
    }
    assert(sessions@.take(sessions@.len() as int) =~= sessions@);
    out
}

fn unknown_sessions(sessions: Vec<Session>, known: &Vec<String>) -> (r: Vec<Session>)
    ensures
        r@ == sessions@.filter(unknown(texts(known@))),
{
    let ghost all = sessions@;
    let ghost wanted = unknown(texts(known@));
    let mut out: Vec<Session> = Vec::new();
    proof {
        reveal(Seq::filter);
        assert(all.take(0).filter(wanted) =~= Seq::empty());
    }
    for session in it: sessions
        invariant
            it.seq() == all,
            wanted == unknown(texts(known@)),
            out@ == all.take(it.index() as int).filter(wanted),
    {
        proof {
            reveal(Seq::filter);
            assert(all.take(it.index() as int + 1).drop_last() =~= all.take(it.index() as int));
        }
        if !is_known(known, session.id.as_str()) {
            out.push(session);
        }
    }
    assert(all.take(all.len() as int) =~= all);
    out
}

fn announce_all(sessions: Vec<Session>) -> (r: Vec<String>)
    ensures
        announces(texts(r@), sessions@),
{
    let ghost fresh = sessions@;
    let sorted = sort_sessions_by_date(sessions);
    let mut out: Vec<String> = Vec::new();
    let mut i: usize = 0;
    while i < sorted.len()
        invariant
            i <= sorted.len(),
            texts(out@) == sorted@.take(i as int).map_values(announcement()),
        decreases sorted.len() - i,
    {
        let s = &sorted[i];
        let ghost before = texts(out@);
        let mut message = "New session available: ".to_owned();
        message.append(format_session(s).as_str());
        message.append(" (`");
        message.append(s.id.as_str());
        message.append("`)");
        let ghost text = message@;
        out.push(message);
        proof {
            assert(texts(out@) =~= before.push(text));
            assert(sorted@.take(i + 1).map_values(announcement()) =~= before.push(text));
        }
        i = i + 1;
    }
    proof {
        assert(sorted@.take(sorted@.len() as int) =~= sorted@);
        assert(is_stable_sort(fresh, by_date(), sorted@));
    }
    out
}

impl NewSessions {
    /// A watch that has seen no listing yet.
    pub fn new() -> (r: Self)
        ensures
            r@ is None,
    {
        NewSessions { known: None }
    }

    /// Takes in a listing and gives the announcements to post: none for the first listing, so
    /// that the channel is not flooded at startup, then one for each session that the previous
    /// listing did not have.
    pub fn poll(&mut self, sessions: Vec<Session>) -> (r: Vec<String>)
        ensures
            final(self)@ == Some(session_ids(sessions@)),
            match old(self)@ {
                None => r@.len() == 0,
                Some(known) => announces(texts(r@), sessions@.filter(unknown(known))),
            },
    {
        let current = ids_of(&sessions);
        let messages = match &self.known {
            None => Vec::new(),
            Some(known) => announce_all(unknown_sessions(sessions, known)),
        };
        self.known = Some(current);
        messages
    }
}

/// What is posted when the watch begins.
pub fn watching_post() -> (r: String)
    ensures
        r@ == "Looking for new sessions..."@,
{
    "Looking for new sessions...".to_owned()
}

/// How many seconds to wait between two listings: as configured, but at least one.
pub fn poll_pause(interval: u64) -> (r: u64)
    ensures
        r == (if interval == 0 {
            1
        } else {
            interval
        }),
{
    if interval == 0 {
        1
    } else {
        interval
    }
}

/// A session is announced exactly when the listing has it and the previous one did not; two
/// equal listings in a row announce nothing the second time.
pub proof fn only_new_sessions_are_announced(
    known: Seq<Seq<char>>,
    sessions: Seq<Session>,
    s: Session,
)
    ensures
        sessions.filter(unknown(known)).contains(s) <==> sessions.contains(s) && !known.contains(
            s.id@,
        ),
        sessions.filter(unknown(session_ids(sessions))).len() == 0,
{
    let wanted = unknown(known);
    if sessions.filter(wanted).contains(s) {
        let i = choose|i: int|
            0 <= i < sessions.filter(wanted).len() && sessions.filter(wanted)[i] == s;
        sessions.lemma_filter_pred(wanted, i);
        sessions.lemma_filter_contains_rev(wanted, s);
    }
    if sessions.contains(s) && !known.contains(s.id@) {
        let i = choose|i: int| 0 <= i < sessions.len() && sessions[i] == s;
        sessions.lemma_filter_contains(wanted, i);
    }
    let again = unknown(session_ids(sessions));
    let left = sessions.filter(again);
    if left.len() > 0 {
        sessions.lemma_filter_pred(again, 0);
        sessions.lemma_filter_contains_rev(again, left[0]);
        let i = choose|i: int| 0 <= i < sessions.len() && sessions[i] == left[0];
        assert(session_ids(sessions)[i] == left[0].id@);
    }
}

/// There are as many announcements as new sessions, each of one of them.
pub proof fn every_new_session_is_announced_once(messages: Seq<Seq<char>>, fresh: Seq<Session>)
    requires
        announces(messages, fresh),
    ensures
        messages.len() == fresh.len(),
        forall|i: int|
            0 <= i < fresh.len() ==> messages.contains(announcement()(#[trigger] fresh[i])),
{
    let sorted = choose|sorted: Seq<Session>| #[trigger]
        is_stable_sort(fresh, by_date(), sorted) && messages == sorted.map_values(announcement());
    let from = choose|from: Seq<int>| #[trigger] sorts_by(fresh, by_date(), sorted, from);
    assert forall|i: int| 0 <= i < fresh.len() implies messages.contains(
        announcement()(#[trigger] fresh[i]),
    ) by {
        sorting_keeps_every_entry(fresh, by_date(), sorted, from, i);
        let k = choose|k: int| 0 <= k < sorted.len() && sorted[k] == fresh[i];
        assert(messages[k] == announcement()(fresh[i]));
    }
}

// ---------------------------------------------------------------------------
// Sessions that cannot be booked yet
// ---------------------------------------------------------------------------

/// How long to wait before the first attempt at a session: until its booking window opens.
/// `None` where the window is open already.
pub fn first_wait(start: Timestamp, hours: i64, now: &Moment) -> (r: Option<Wait>)
    requires
        start.valid(),
        fits_before(start, hours),
        now.valid(),
    ensures
        ({
            let opens = Timestamp {
                seconds: hours_before(start, hours).0 as i64,
                nanos: hours_before(start, hours).1 as u32,
            };
            match r {
                Some(w) => w.nanos < 1_000_000_000 && w.total() == nanos_between(opens, now.at),
                None => nanos_between(opens, now.at) < 0,
            }
        }),
{
    time_until(window_opening(start, hours), now.at)
}

/// Whether a session has begun.
pub fn has_started(start: Timestamp, now: &Moment) -> (r: bool)
    ensures
        r == !now.at.before(start),
{
    !now.at.is_before(&start)
}

/// Whether a rejection is one that waiting cannot fix.
pub open spec fn hopeless(status: Seq<char>) -> bool {
    status == "noCredits"@ || status == "noMembership"@
}

fn is_hopeless(status: &str) -> (r: bool)
    ensures
        r == hopeless(status@),
{
    crate::text::same_text(status, "noCredits") || crate::text::same_text(status, "noMembership")
}

/// Whether an attempt found the session full, as far as its rejection tells.
pub open spec fn still_full(attempt: Attempt) -> bool {
    attempt matches Attempt::Refused(BookError::Rejected { status, message }) && !hopeless(status@)
}

/// Whether a watch has reported that the session is full, once an attempt is made: if it had
/// before, or if the attempt finds the session full ahead of its start.
pub open spec fn reported_then(reported: bool, attempt: Attempt, started: bool) -> bool {
    reported || (still_full(attempt) && !started)
}

/// What follows an attempt at a watched session.
#[derive(Debug)]
pub enum WatchStep {
    /// Post this; the watch is over.
    Stop(String),
    /// Post the notice, where there is one, wait so many seconds, and try again.
    Again { notice: Option<String>, wait: u64 },
}

impl WatchStep {
    /// Whether this step posts a notice.
    pub open spec fn reports(self) -> bool {
        self matches WatchStep::Again { notice, wait } && notice is Some
    }
}

/// Who and what is watched.
pub struct Watched {
    /// The Discord user to ping.
    pub user_id: u64,
    /// The label of the account to book for.
    pub label: String,
    pub session_id: String,
}

/// How often attempts are repeated.
#[derive(Debug, Clone, Copy)]
pub struct WatchPolicy {
    /// While the slot is not open.
    pub opening: RetryPolicy,
    /// Seconds between attempts while the session is full.
    pub full_interval: u64,
}

impl Watched {
    /// A message with a ping in front.
    pub open spec fn ping(&self, message: Seq<char>) -> Seq<char> {
        "<@"@ + decimal(self.user_id as nat) + "> "@ + message
    }

    /// The notice that the session is full.
    pub open spec fn full_notice(&self, reason: Seq<char>, interval: u64) -> Seq<char> {
        "`"@ + self.session_id@ + "` cannot be booked for "@ + self.label@ + " yet: "@ + reason
            + ". Trying again every "@ + decimal(interval as nat) + "s until it starts."@
    }

    /// What is posted when the session has begun.
    pub open spec fn started_post(&self) -> Seq<char> {
        "`"@ + self.session_id@ + "` has started; no longer trying to book it for "@ + self.label@
            + "."@
    }

    fn pinging(&self, message: &str) -> (r: String)
        ensures
            r@ == self.ping(message@),
    {
        let mut out = "<@".to_owned();
        out.append(decimal_text(self.user_id).as_str());
        out.append("> ");
        out.append(message);
        out
    }

    fn notice_full(&self, reason: &str, interval: u64) -> (r: String)
        ensures
            r@ == self.full_notice(reason@, interval),
    {
        let mut out = "`".to_owned();
        out.append(self.session_id.as_str());
        out.append("` cannot be booked for ");
        out.append(self.label.as_str());
        out.append(" yet: ");
        out.append(reason);
        out.append(". Trying again every ");
        out.append(decimal_text(interval).as_str());
        out.append("s until it starts.");
        out
    }

    fn post_started(&self) -> (r: String)
        ensures
            r@ == self.started_post(),
    {
        let mut out = "`".to_owned();
        out.append(self.session_id.as_str());
        out.append("` has started; no longer trying to book it for ");
        out.append(self.label.as_str());
        out.append(".");
        out
    }

    /// Decides what follows an attempt, `elapsed` seconds after the first one. While the slot is
    /// not open the attempt is repeated until the time for that is used up; while the session is
    /// full, until it begins. That it is full is reported once: `reported` remembers it. Any
    /// other outcome ends the watch.
    pub fn step(
        &self,
        reported: &mut bool,
        attempt: &Attempt,
        elapsed: u64,
        started: bool,
        policy: WatchPolicy,
    ) -> (r: WatchStep)
        ensures
            *final(reported) == reported_then(*old(reported), *attempt, started),
            r.reports() <==> *final(reported) && !*old(reported),
            if attempt.not_open() && !policy.opening.expired(elapsed) {
                r matches WatchStep::Again { notice, wait } && notice is None && wait
                    == policy.opening.interval
            } else if still_full(*attempt) {
                if started {
                    r matches WatchStep::Stop(m) && m@ == self.ping(self.started_post())
                } else {
                    &&& r matches WatchStep::Again { notice, wait }
                    &&& wait == policy.full_interval
                    &&& if *old(reported) {
                        notice is None
                    } else {
                        notice matches Some(m) && m@ == self.full_notice(
                            attempt.reason(),
                            policy.full_interval,
                        )
                    }
                }
            } else {
                r matches WatchStep::Stop(m) && m@ == self.ping(
                    settled_post(self.label@, self.session_id@, *attempt),
                )
            },
    {
        if let Attempt::Refused(e) = attempt {
            match e {
                BookError::SlotNotOpen(_) => {
                    if elapsed < policy.opening.duration {
                        return WatchStep::Again { notice: None, wait: policy.opening.interval };
                    }
                },
                BookError::Rejected { status, message: _ } => {
                    if !is_hopeless(status.as_str()) {
                        if started {
                            return WatchStep::Stop(self.pinging(self.post_started().as_str()));
                        }
                        let notice = if *reported {
                            None
                        } else {
                            Some(self.notice_full(e.to_text().as_str(), policy.full_interval))
                        };
                        *reported = true;
                        return WatchStep::Again { notice, wait: policy.full_interval };
                    }
                },
                BookError::Request(_) => {},
            }
        }
        let post = settle_post(self.label.as_str(), self.session_id.as_str(), attempt);
        WatchStep::Stop(self.pinging(post.as_str()))
    }
}

/// Whether a watch has reported that the session is full, after a course of attempts, each with
/// whether the session had begun.
pub open spec fn reported_after(course: Seq<(Attempt, bool)>) -> bool
    decreases course.len(),
{
    course.len() > 0 && reported_then(
        reported_after(course.drop_last()),
        course.last().0,
        course.last().1,
    )
}

/// How often a watch reports in a course of attempts that the session is full: once for each
/// attempt that turns the flag on.
pub open spec fn report_count(course: Seq<(Attempt, bool)>) -> nat
    decreases course.len(),
{
    if course.len() == 0 {
        0
    } else {
        report_count(course.drop_last()) + if reported_after(course) && !reported_after(
            course.drop_last(),
        ) {
            1nat
        } else {
            0nat
        }
    }
}

/// That a session is full is reported at most once, however often it is found full, and is
/// reported if it is found full before its start.
pub proof fn full_is_reported_once(course: Seq<(Attempt, bool)>)
    ensures
        report_count(course) <= 1,
        report_count(course) == 1 <==> exists|i: int|
            0 <= i < course.len() && still_full((#[trigger] course[i]).0) && !course[i].1,
    decreases course.len(),
{
    if course.len() > 0 {
        let front = course.drop_last();
        full_is_reported_once(front);
        lemma_reported_means_counted(front);
        let last = course.len() - 1;
        assert(course[last] == course.last());
        if report_count(front) == 1 {
            let i = choose|i: int|
                0 <= i < front.len() && still_full((#[trigger] front[i]).0) && !front[i].1;
            assert(course[i] == front[i]);
        }
        if exists|i: int|
            0 <= i < course.len() && still_full((#[trigger] course[i]).0) && !course[i].1 {
            let i = choose|i: int|
                0 <= i < course.len() && still_full((#[trigger] course[i]).0) && !course[i].1;
            if i < front.len() {
                assert(front[i] == course[i]);
            }
        }
    }
}

proof fn lemma_reported_means_counted(course: Seq<(Attempt, bool)>)
    ensures
        report_count(course) == (if reported_after(course) {
            1nat
        } else {
            0nat
        }),
    decreases course.len(),
{
    if course.len() > 0 {
        lemma_reported_means_counted(course.drop_last());
    }
}

/// What is said when a watch begins.
pub fn watchbook_reply(name: &str, accounts: &Vec<Account>) -> (r: String)
    ensures
        r@ == "Watching `"@ + name@ + "` for "@ + joined(labels(account_views(accounts@)), ", "@)
            + ". I'll book it as soon as it can be booked and post here."@,
{
    let mut out = "Watching `".to_owned();
    out.append(name);
    out.append("` for ");
    out.append(join_labels(accounts).as_str());
    out.append(". I'll book it as soon as it can be booked and post here.");
    out
}

// ---------------------------------------------------------------------------
// Laws
// ---------------------------------------------------------------------------

/// A rejection whose status is neither `noCredits` nor `noMembership`, whatever it is, is followed
/// by another attempt after the interval for a full session, as long as the session has not
/// begun; a rejection ends the watch only by one of these two statuses or by the beginning of the
/// session. The first such rejection is reported with its reason, no later one.
pub proof fn any_other_rejection_is_tried_again(
    watched: Watched,
    reported: &mut bool,
    status: String,
    message: String,
    elapsed: u64,
    started: bool,
    policy: WatchPolicy,
    r: WatchStep,
)
    requires
        call_ensures(
            Watched::step,
            (
                &watched,
                reported,
                &Attempt::Refused(BookError::Rejected { status, message }),
                elapsed,
                started,
                policy,
            ),
            r,
        ),
    ensures
        r is Stop <==> status@ == "noCredits"@ || status@ == "noMembership"@ || started,
        status@ != "noCredits"@ && status@ != "noMembership"@ && !started ==> {
            &&& r matches WatchStep::Again { notice, wait }
            &&& wait == policy.full_interval
            &&& *final(reported)
            &&& *old(reported) ==> notice is None
            &&& !*old(reported) ==> notice is Some && notice->0@ == "`"@ + watched.session_id@
                + "` cannot be booked for "@ + watched.label@ + " yet: "@ + ("booking rejected ("@
                + status@ + "): "@ + message@) + ". Trying again every "@ + decimal(
                policy.full_interval as nat,
            ) + "s until it starts."@
        },
        r is Stop ==> *final(reported) == *old(reported),
        status@ == "noCredits"@ || status@ == "noMembership"@ ==> (r matches WatchStep::Stop(m)
            && m@ == "<@"@ + decimal(watched.user_id as nat) + "> "@ + ("Booking failed for "@
            + watched.label@ + ": "@ + ("booking rejected ("@ + status@ + "): "@ + message@))),
        status@ != "noCredits"@ && status@ != "noMembership"@ && started ==> (
        r matches WatchStep::Stop(m) && m@ == "<@"@ + decimal(watched.user_id as nat) + "> "@ + (
        "`"@ + watched.session_id@ + "` has started; no longer trying to book it for "@
            + watched.label@ + "."@)),
{
}

/// A slot that is not open is tried again, silently and after the interval for that, exactly as
/// long as the time for it is not used up.
pub proof fn a_closed_slot_is_tried_until_the_time_is_up(
    watched: Watched,
    reported: &mut bool,
    body: String,
    elapsed: u64,
    started: bool,
    policy: WatchPolicy,
    r: WatchStep,
)
    requires
        call_ensures(
            Watched::step,
            (
                &watched,
                reported,
                &Attempt::Refused(BookError::SlotNotOpen(body)),
                elapsed,
                started,
                policy,
            ),
            r,
        ),
    ensures
        *final(reported) == *old(reported),
        elapsed < policy.opening.duration ==> (r matches WatchStep::Again { notice, wait }
            && notice is None && wait == policy.opening.interval),
        elapsed >= policy.opening.duration ==> (r matches WatchStep::Stop(m) && m@ == "<@"@
            + decimal(watched.user_id as nat) + "> "@ + ("Booking window expired for "@
            + watched.label@ + "."@)),
{
}

/// A booking ends the watch with the news of it, and so does an attempt that failed otherwise.
pub proof fn a_booking_ends_the_watch(
    watched: Watched,
    reported: &mut bool,
    attempt: Attempt,
    elapsed: u64,
    started: bool,
    policy: WatchPolicy,
    r: WatchStep,
)
    requires
        call_ensures(
            Watched::step,
            (&watched, reported, &attempt, elapsed, started, policy),
            r,
        ),
        !(attempt matches Attempt::Refused(BookError::Rejected { .. })),
        !(attempt matches Attempt::Refused(BookError::SlotNotOpen(_))),
    ensures
        *final(reported) == *old(reported),
        r matches WatchStep::Stop(m) && m@ == "<@"@ + decimal(watched.user_id as nat) + "> "@ + (
        if attempt is Booked {
            "Booked `"@ + watched.session_id@ + "` for "@ + watched.label@ + "."@
        } else {
            "Booking failed for "@ + watched.label@ + " with an unexpected error."@
        }),
{
}

/// The first listing is not announced. Of any later one, each session whose id the previous one
/// did not have is announced, once, by name, day, time and id, in the order of their dates; and
/// the ids of the listing are what the next one is held against.
#[verifier::spinoff_prover]
#[verifier::rlimit(40)]
pub proof fn each_new_session_is_announced(
    watch: &mut NewSessions,
    sessions: Vec<Session>,
    r: Vec<String>,
)
    requires
        call_ensures(NewSessions::poll, (watch, sessions), r),
    ensures
        old(watch)@ is None ==> r@.len() == 0,
        final(watch)@ is Some && final(watch)@->0.len() == sessions@.len() && forall|i: int|
            0 <= i < sessions@.len() ==> final(watch)@->0[i] == (#[trigger] sessions@[i]).id@,
        old(watch)@ matches Some(known) ==> exists|fresh: Seq<Session>| #[trigger]
            announced_by_date(r@, fresh) && (forall|s: Session| #[trigger]
                fresh.contains(s) <==> sessions@.contains(s) && !known.contains(s.id@)),
{
    if let Some(known) = old(watch)@ {
        let new = sessions@.filter(unknown(known));
        let sorted = choose|sorted: Seq<Session>| #[trigger]
            is_stable_sort(new, by_date(), sorted) && texts(r@) == sorted.map_values(
                announcement(),
            );
        assert(texts(r@).len() == r@.len());
        assert forall|s: Session| #[trigger] sorted.contains(s) <==> sessions@.contains(s)
            && !known.contains(s.id@) by {
            crate::session::ordering_keeps_the_entries(new, by_date(), sorted, s);
            only_new_sessions_are_announced(known, sessions@, s);
        }
        assert forall|i: int| 0 <= i < sorted.len() implies announces_session(
            (#[trigger] r@[i])@,
            sorted[i],
        ) by {
            assert(texts(r@)[i] == r@[i]@);
            assert(texts(r@)[i] == announcement()(sorted[i]));
            lemma_announcement(sorted[i]);
        }
        assert forall|i: int, j: int| 0 <= i < j < sorted.len() implies {
            &&& (#[trigger] sorted[i]).date is Some ==> (#[trigger] sorted[j]).date is Some
            &&& sorted[i].date is Some ==> !crate::text::text_before(
                sorted[j].date->0@,
                sorted[i].date->0@,
            )
        } by {
            crate::session::sessions_come_in_the_order_of_their_dates(new, sorted, i, j);
        }
        assert(announced_by_date(r@, sorted));
    }
}

/// Whether a message announces a session by its name, or by its id where it has none, its day,
/// its time and its id.
pub open spec fn announces_session(message: Seq<char>, s: Session) -> bool {
    message == "New session available: "@ + (match s.name {
        Some(name) => name@,
        None => s.id@,
    }) + " | "@ + crate::session::shown_day(s.date) + " | "@ + (match s.time {
        Some(time) => time@,
        None => "?"@,
    }) + " (`"@ + s.id@ + "`)"@
}

proof fn lemma_announcement(s: Session)
    ensures
        announces_session(announcement()(s), s),
{
    let name = match s.name {
        Some(name) => name@,
        None => s.id@,
    };
    let time = match s.time {
        Some(time) => time@,
        None => "?"@,
    };
    assert(announcement()(s) =~= "New session available: "@ + name + " | "@
        + crate::session::shown_day(s.date) + " | "@ + time + " (`"@ + s.id@ + "`)"@);
}

/// Whether messages announce sessions one by one, no earlier date behind a later one.
pub open spec fn announced_by_date(messages: Seq<String>, sessions: Seq<Session>) -> bool {
    &&& messages.len() == sessions.len()
    &&& forall|i: int|
        0 <= i < sessions.len() ==> announces_session((#[trigger] messages[i])@, sessions[i])
    &&& forall|i: int, j: int|
        0 <= i < j < sessions.len() ==> {
            &&& (#[trigger] sessions[i]).date is Some ==> (#[trigger] sessions[j]).date is Some
            &&& sessions[i].date is Some ==> !crate::text::text_before(
                sessions[j].date->0@,
                sessions[i].date->0@,
            )
        }
}

/// The first attempt waits exactly until the window opens, so many hours before the start, and
/// does not wait once it is open; and a session has begun from its start on.
pub proof fn the_watch_begins_when_the_window_opens(
    start: Timestamp,
    hours: i64,
    now: Moment,
    r: Option<Wait>,
    started: bool,
)
    requires
        call_ensures(first_wait, (start, hours, &now), r),
        call_ensures(has_started, (start, &now), started),
        crate::when::MIN_SECONDS <= start.seconds - hours * 3600 <= crate::when::MAX_SECONDS,
        start.nanos < 1_000_000_000,
        now.at.nanos < 1_000_000_000,
    ensures
        ({
            let left = (start.seconds - hours * 3600 - now.at.seconds) * 1_000_000_000 + (
            start.nanos - now.at.nanos);
            match r {
                Some(w) => w.nanos < 1_000_000_000 && w.seconds * 1_000_000_000 + w.nanos == left,
                None => left < 0,
            }
        }),
        started <==> start.seconds < now.at.seconds || (start.seconds == now.at.seconds
            && start.nanos <= now.at.nanos),
{
}

/// The pause between two listings is the one that is set, and never nothing; and the reply to a
/// watch names the session and everybody it is for.
pub proof fn a_watch_pauses_and_names_everybody(
    interval: u64,
    pause: u64,
    name: &str,
    accounts: Vec<Account>,
    reply: String,
)
    requires
        call_ensures(poll_pause, (interval,), pause),
        call_ensures(watchbook_reply, (name, &accounts), reply),
    ensures
        pause >= 1,
        interval >= 1 ==> pause == interval,
        reply@ == "Watching `"@ + name@ + "` for "@ + joined(
            accounts@.map_values(|a: Account| a.label@),
            ", "@,
        ) + ". I'll book it as soon as it can be booked and post here."@,
{
    assert(labels(account_views(accounts@)) =~= accounts@.map_values(|a: Account| a.label@));
}

} // verus!
