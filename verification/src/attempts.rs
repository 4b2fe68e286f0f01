//! Booking and cancelling for several people: what the attempts came to, what is undone, and
//! what is reported.

use vstd::prelude::*;

use crate::booking::{BookError, RetryPolicy};
use crate::config::{account_views, Account, AccountView};
use crate::detail::add_line;
use crate::json::Json;
use crate::number::{decimal, decimal_text};
use crate::text::{
    begins_with, join, joined, joining_keeps_every_text, occurs_in, parts_stand_in_the_whole, texts,
};

verus! {

// ---------------------------------------------------------------------------
// Attempts
// ---------------------------------------------------------------------------

/// What an attempt to book came to.
#[derive(Debug)]
pub enum Attempt {
    Booked,
    /// The platform did not book.
    Refused(BookError),
    /// The platform was not even asked; the text says why.
    Failed(String),
}

impl Attempt {
    /// Whether the slot was not open yet.
    pub open spec fn not_open(&self) -> bool {
        *self matches Attempt::Refused(BookError::SlotNotOpen(_))
    }

    /// Why nothing was booked.
    pub open spec fn reason(&self) -> Seq<char> {
        match *self {
            Attempt::Booked => Seq::empty(),
            Attempt::Refused(e) => e.shown(),
            Attempt::Failed(e) => e@,
        }
    }

    /// Takes in the outcome of a booking request.
    pub fn from_outcome(outcome: Result<Json, BookError>) -> (r: Attempt)
        ensures
            match outcome {
                Ok(_) => r is Booked,
                Err(e) => r == Attempt::Refused(e),
            },
    {
        match outcome {
            Ok(_) => Attempt::Booked,
            Err(e) => Attempt::Refused(e),
        }
    }
}

/// An attempt to book for an account.
pub struct Attempted {
    pub account: Account,
    pub attempt: Attempt,
}

/// The accounts for which a booking stands, in order.
pub open spec fn booked_accounts(list: Seq<Attempted>) -> Seq<AccountView>
    decreases list.len(),
{
    if list.len() == 0 {
        Seq::empty()
    } else {
        let before = booked_accounts(list.drop_last());
        if list.last().attempt is Booked {
            before.push(list.last().account@)
        } else {
            before
        }
    }
}

/// The accounts for which the slot was not open yet, in order.
pub open spec fn waiting_accounts(list: Seq<Attempted>) -> Seq<AccountView>
    decreases list.len(),
{
    if list.len() == 0 {
        Seq::empty()
    } else {
        let before = waiting_accounts(list.drop_last());
        if list.last().attempt.not_open() {
            before.push(list.last().account@)
        } else {
            before
        }
    }
}

/// A label with a reason in brackets.
pub open spec fn noted(label: Seq<char>, reason: Seq<char>) -> Seq<char> {
    label + " ("@ + reason + ")"@
}

/// The notes on the accounts for which nothing was booked, in order. In a group, a slot that is
/// not open yet is a failure too.
pub open spec fn failure_notes(list: Seq<Attempted>, group: bool) -> Seq<Seq<char>>
    decreases list.len(),
{
    if list.len() == 0 {
        Seq::empty()
    } else {
        let before = failure_notes(list.drop_last(), group);
        let a = list.last();
        if a.attempt is Booked {
            before
        } else if a.attempt.not_open() {
            if group {
                before.push(noted(a.account.label@, "slot not open yet"@))
            } else {
                before
            }
        } else {
            before.push(noted(a.account.label@, a.attempt.reason()))
        }
    }
}

/// The labels of accounts.
pub open spec fn labels(list: Seq<AccountView>) -> Seq<Seq<char>> {
    list.map_values(|a: AccountView| a.label)
}

fn note(label: &str, reason: &str) -> (r: String)
    ensures
        r@ == noted(label@, reason@),
{
    let mut out = label.to_owned();
    out.append(" (");
    out.append(reason);
    out.append(")");
    out
}

/// The labels of accounts, joined by commas.
pub fn join_labels(list: &Vec<Account>) -> (r: String)
    ensures
        r@ == joined(labels(account_views(list@)), ", "@),
{
    let mut out: Vec<String> = Vec::new();
    let mut i: usize = 0;
    let ghost all = labels(account_views(list@));
    while i < list.len()
        invariant
            i <= list.len(),
            all == labels(account_views(list@)),
            texts(out@) == all.take(i as int),
        decreases list.len() - i,
    {
        let ghost before = texts(out@);
        out.push(list[i].label.clone());
        assert(texts(out@) =~= before.push(list@[i as int].label@));
        assert(all.take(i + 1) =~= before.push(all[i as int]));
        i = i + 1;
    }
    assert(all.take(all.len() as int) =~= all);
    join(&out, ", ")
}

/// What a list of attempts came to.
struct Tally {
    booked: Vec<Account>,
    waiting: Vec<Account>,
    failures: Vec<String>,
}

fn tally(list: &Vec<Attempted>, group: bool) -> (r: Tally)
    ensures
        account_views(r.booked@) == booked_accounts(list@),
        account_views(r.waiting@) == waiting_accounts(list@),
        texts(r.failures@) == failure_notes(list@, group),
{
    let mut booked: Vec<Account> = Vec::new();
    let mut waiting: Vec<Account> = Vec::new();
    let mut failures: Vec<String> = Vec::new();
    let mut i: usize = 0;
    proof {
        assert(account_views(booked@) =~= booked_accounts(list@.take(0)));
        assert(account_views(waiting@) =~= waiting_accounts(list@.take(0)));
        assert(texts(failures@) =~= failure_notes(list@.take(0), group));
    }
    while i < list.len()
        invariant
            i <= list.len(),
            account_views(booked@) == booked_accounts(list@.take(i as int)),
            account_views(waiting@) == waiting_accounts(list@.take(i as int)),
            texts(failures@) == failure_notes(list@.take(i as int), group),
        decreases list.len() - i,
    {
        let a = &list[i];
        let label = a.account.label.as_str();
        let ghost stood = account_views(booked@);
        let ghost waited = account_views(waiting@);
        let ghost failed = texts(failures@);
        proof {
            assert(list@.take(i + 1).drop_last() =~= list@.take(i as int));
            assert(list@.take(i + 1).last() == *a);
        }
        match &a.attempt {
            Attempt::Booked => {
                booked.push(a.account.clone());
                assert(account_views(booked@) =~= stood.push(a.account@));
            },
            Attempt::Refused(BookError::SlotNotOpen(_)) => {
                waiting.push(a.account.clone());
                assert(account_views(waiting@) =~= waited.push(a.account@));
                if group {
                    failures.push(note(label, "slot not open yet"));
                    assert(texts(failures@) =~= failed.push(
                        noted(label@, "slot not open yet"@),
                    ));
                }
            },
            Attempt::Refused(e) => {
                failures.push(note(label, e.to_text().as_str()));
                assert(texts(failures@) =~= failed.push(noted(label@, e.shown())));
            },
            Attempt::Failed(e) => {
                failures.push(note(label, e.as_str()));
                assert(texts(failures@) =~= failed.push(noted(label@, e@)));
            },
        }
        i = i + 1;
    }
    assert(list@.take(list@.len() as int) =~= list@);
    Tally { booked, waiting, failures }
}

// ---------------------------------------------------------------------------
// Booking one by one
// ---------------------------------------------------------------------------

/// One line where a list is not empty, none where it is.
pub open spec fn line_if(list: Seq<Seq<char>>, line: Seq<char>) -> Seq<Seq<char>> {
    if list.len() == 0 {
        Seq::empty()
    } else {
        seq![line]
    }
}

/// The report that a session is booked.
pub open spec fn booked_line(session_id: Seq<char>, who: Seq<Seq<char>>) -> Seq<char> {
    "Booked `"@ + session_id + "` for: "@ + joined(who, ", "@)
}

/// The report that bookings will be tried again.
pub open spec fn retrying_line(who: Seq<Seq<char>>, policy: RetryPolicy) -> Seq<char> {
    "Slot not open yet for: "@ + joined(who, ", "@) + ". Retrying every "@ + decimal(
        policy.interval as nat,
    ) + "s for up to "@ + decimal(policy.duration as nat) + "s..."@
}

/// The report on attempts that are not undone.
pub open spec fn book_lines(
    session_id: Seq<char>,
    list: Seq<Attempted>,
    policy: RetryPolicy,
) -> Seq<Seq<char>> {
    let booked = labels(booked_accounts(list));
    let waiting = labels(waiting_accounts(list));
    let failed = failure_notes(list, false);
    line_if(booked, booked_line(session_id, booked)) + line_if(
        waiting,
        retrying_line(waiting, policy),
    ) + line_if(failed, "Booking failed for: "@ + joined(failed, ", "@))
}

/// The answer to `/book`.
pub struct BookReport {
    pub reply: String,
    /// The accounts for which booking goes on in the background.
    pub retry: Vec<Account>,
}

fn booked_text(session_id: &str, who: &str) -> (r: String)
    ensures
        r@ == "Booked `"@ + session_id@ + "` for: "@ + who@,
{
    let mut line = "Booked `".to_owned();
    line.append(session_id);
    line.append("` for: ");
    line.append(who);
    line
}

/// Answers `/book` for a single account: a slot that is not open yet is tried again in the
/// background; a rejection (e.g. no credits) is not, since that would not help.
pub fn book_report(session_id: &str, list: &Vec<Attempted>, policy: RetryPolicy) -> (r: BookReport)
    ensures
        r.reply@ == joined(book_lines(session_id@, list@, policy), "\n"@),
        account_views(r.retry@) == waiting_accounts(list@),
{
    let found = tally(list, false);
    let mut lines: Vec<String> = Vec::new();
    proof {
        assert(account_views(found.booked@).len() == found.booked@.len());
        assert(account_views(found.waiting@).len() == found.waiting@.len());
        assert(texts(found.failures@).len() == found.failures@.len());
        assert(texts(lines@) =~= Seq::empty());
    }
    if !found.booked.is_empty() {
        add_line(&mut lines, booked_text(session_id, join_labels(&found.booked).as_str()));
    }
    if !found.waiting.is_empty() {
        let mut line = "Slot not open yet for: ".to_owned();
        line.append(join_labels(&found.waiting).as_str());
        line.append(". Retrying every ");
        line.append(decimal_text(policy.interval).as_str());
        line.append("s for up to ");
        line.append(decimal_text(policy.duration).as_str());
        line.append("s...");
        add_line(&mut lines, line);
    }
    if !found.failures.is_empty() {
        let mut line = "Booking failed for: ".to_owned();
        line.append(join(&found.failures, ", ").as_str());
        add_line(&mut lines, line);
    }
    assert(texts(lines@) =~= book_lines(session_id@, list@, policy));
    BookReport { reply: join(&lines, "\n"), retry: found.waiting }
}

// ---------------------------------------------------------------------------
// Booking as a group
// ---------------------------------------------------------------------------

/// Whether accounts are booked as a group, all or none: when there are several.
pub fn is_group(targets: &Vec<Account>) -> (r: bool)
    ensures
        r == (targets@.len() > 1),
{
    targets.len() > 1
}

/// What becomes of a group.
pub enum GroupVerdict {
    /// All are booked; the reply.
    Confirmed(String),
    /// Not all could be booked: these accounts' bookings are undone, for these reasons.
    RollBack { accounts: Vec<Account>, failures: Vec<String> },
}

/// Decides what becomes of a group: unless every attempt succeeded, the bookings that did are
/// undone, so that nobody is left half-booked.
pub fn group_verdict(session_id: &str, list: &Vec<Attempted>) -> (r: GroupVerdict)
    ensures
        if failure_notes(list@, true).len() == 0 {
            r matches GroupVerdict::Confirmed(reply) && reply@ == booked_line(
                session_id@,
                labels(booked_accounts(list@)),
            )
        } else {
            r matches GroupVerdict::RollBack { accounts, failures } && account_views(accounts@)
                == booked_accounts(list@) && texts(failures@) == failure_notes(list@, true)
        },
{
    let found = tally(list, true);
    assert(texts(found.failures@).len() == found.failures@.len());
    if found.failures.is_empty() {
        GroupVerdict::Confirmed(booked_text(session_id, join_labels(&found.booked).as_str()))
    } else {
        GroupVerdict::RollBack { accounts: found.booked, failures: found.failures }
    }
}

/// A group is booked as a whole or not at all: every attempt is either a booking or a failure,
/// so a group without failures is booked for each account, and in any other every booking is
/// among those that are undone.
pub proof fn group_is_all_or_nothing(list: Seq<Attempted>, i: int)
    requires
        0 <= i < list.len(),
    ensures
        booked_accounts(list).len() + failure_notes(list, true).len() == list.len(),
        failure_notes(list, true).len() == 0 ==> list[i].attempt is Booked,
        list[i].attempt is Booked ==> booked_accounts(list).contains(list[i].account@),
    decreases list.len(),
{
    let front = list.drop_last();
    if i < front.len() {
        group_is_all_or_nothing(front, i);
        assert(front[i] == list[i]);
        if list[i].attempt is Booked {
            let before = booked_accounts(front);
            let k = choose|k: int| 0 <= k < before.len() && before[k] == list[i].account@;
            assert(booked_accounts(list)[k] == list[i].account@);
        }
    } else {
        if front.len() > 0 {
            group_is_all_or_nothing(front, 0);
        }
        if list[i].attempt is Booked {
            assert(booked_accounts(list).last() == list[i].account@);
        }
    }
}

// ---------------------------------------------------------------------------
// Cancelling
// ---------------------------------------------------------------------------

/// What cancelling for an account came to: the id of the booking that was cancelled, none where
/// there was none, or why it failed.
pub struct Cancellation {
    pub label: String,
    pub result: Result<Option<String>, String>,
}

/// What cancelling can come to.
#[derive(PartialEq, Eq, Clone, Copy, Structural)]
pub enum Cancelled {
    /// A booking was cancelled.
    Yes,
    /// There was none.
    Nothing,
    /// Either of the two.
    Either,
}

impl Cancelled {
    /// Whether a result is of this kind.
    pub open spec fn is(self, result: Result<Option<String>, String>) -> bool {
        match result {
            Ok(Some(_)) => self != Cancelled::Nothing,
            Ok(None) => self != Cancelled::Yes,
            Err(_) => false,
        }
    }
}

/// The labels of the accounts for which cancelling came to this, in order.
pub open spec fn cancelled_labels(list: Seq<Cancellation>, kind: Cancelled) -> Seq<Seq<char>>
    decreases list.len(),
{
    if list.len() == 0 {
        Seq::empty()
    } else {
        let before = cancelled_labels(list.drop_last(), kind);
        if kind.is(list.last().result) {
            before.push(list.last().label@)
        } else {
            before
        }
    }
}

/// The notes on the accounts for which cancelling failed, in order.
pub open spec fn cancel_failures(list: Seq<Cancellation>) -> Seq<Seq<char>>
    decreases list.len(),
{
    if list.len() == 0 {
        Seq::empty()
    } else {
        let before = cancel_failures(list.drop_last());
        match list.last().result {
            Ok(_) => before,
            Err(e) => before.push(noted(list.last().label@, e@)),
        }
    }
}

fn labels_of(list: &Vec<Cancellation>, kind: Cancelled) -> (r: Vec<String>)
    ensures
        texts(r@) == cancelled_labels(list@, kind),
{
    let mut out: Vec<String> = Vec::new();
    let mut i: usize = 0;
    assert(texts(out@) =~= cancelled_labels(list@.take(0), kind));
    while i < list.len()
        invariant
            i <= list.len(),
            texts(out@) == cancelled_labels(list@.take(i as int), kind),
        decreases list.len() - i,
    {
        let c = &list[i];
        let ghost before = texts(out@);
        proof {
            assert(list@.take(i + 1).drop_last() =~= list@.take(i as int));
            assert(list@.take(i + 1).last() == *c);
        }
        let wanted = match &c.result {
            Ok(Some(_)) => kind != Cancelled::Nothing,
            Ok(None) => kind != Cancelled::Yes,
            Err(_) => false,
        };
        if wanted {
            out.push(c.label.clone());
            assert(texts(out@) =~= before.push(c.label@));
        }
        i = i + 1;
    }
    assert(list@.take(list@.len() as int) =~= list@);
    out
}

fn failures_of(list: &Vec<Cancellation>) -> (r: Vec<String>)
    ensures
        texts(r@) == cancel_failures(list@),
{
    let mut out: Vec<String> = Vec::new();
    let mut i: usize = 0;
    assert(texts(out@) =~= cancel_failures(list@.take(0)));
    while i < list.len()
        invariant
            i <= list.len(),
            texts(out@) == cancel_failures(list@.take(i as int)),
        decreases list.len() - i,
    {
        let c = &list[i];
        let ghost before = texts(out@);
        proof {
            assert(list@.take(i + 1).drop_last() =~= list@.take(i as int));
            assert(list@.take(i + 1).last() == *c);
        }
        if let Err(e) = &c.result {
            out.push(note(c.label.as_str(), e.as_str()));
            assert(texts(out@) =~= before.push(noted(c.label@, e@)));
        }
        i = i + 1;
    }
    assert(list@.take(list@.len() as int) =~= list@);
    out
}

fn add_listed(lines: &mut Vec<String>, title: &str, list: &Vec<String>, end: &str)
    ensures
        texts(final(lines)@) == texts(old(lines)@) + line_if(
            texts(list@),
            title@ + joined(texts(list@), ", "@) + end@,
        ),
{
    assert(texts(list@).len() == list@.len());
    if list.is_empty() {
        assert(texts(lines@) =~= texts(lines@) + Seq::empty());
    } else {
        let mut line = title.to_owned();
        line.append(join(list, ", ").as_str());
        line.append(end);
        let ghost before = texts(lines@);
        let ghost text = line@;
        add_line(lines, line);
        assert(texts(lines@) =~= before + seq![text]);
    }
}

/// The report on cancellations.
pub open spec fn cancel_lines(list: Seq<Cancellation>) -> Seq<Seq<char>> {
    let yes = cancelled_labels(list, Cancelled::Yes);
    let nothing = cancelled_labels(list, Cancelled::Nothing);
    let failed = cancel_failures(list);
    let lines = line_if(yes, "Cancelled for: "@ + joined(yes, ", "@)) + line_if(
        nothing,
        "No booking found for: "@ + joined(nothing, ", "@),
    ) + line_if(failed, "Cancellation failed for: "@ + joined(failed, ", "@));
    if lines.len() == 0 {
        seq!["Nothing to cancel."@]
    } else {
        lines
    }
}

/// Answers `/cancel`.
pub fn cancel_report(list: &Vec<Cancellation>) -> (r: String)
    ensures
        r@ == joined(cancel_lines(list@), "\n"@),
{
    let mut lines: Vec<String> = Vec::new();
    proof {
        reveal_strlit("");
        assert(forall|s: Seq<char>| #[trigger] (s + ""@) =~= s);
        assert(texts(lines@) =~= Seq::empty());
    }
    add_listed(&mut lines, "Cancelled for: ", &labels_of(list, Cancelled::Yes), "");
    add_listed(&mut lines, "No booking found for: ", &labels_of(list, Cancelled::Nothing), "");
    add_listed(&mut lines, "Cancellation failed for: ", &failures_of(list), "");
    assert(texts(lines@).len() == lines@.len());
    if lines.is_empty() {
        add_line(&mut lines, "Nothing to cancel.".to_owned());
    }
    assert(texts(lines@) =~= cancel_lines(list@));
    join(&lines, "\n")
}

/// The report on a group that was undone.
pub open spec fn rollback_lines(failures: Seq<Seq<char>>, undone: Seq<Cancellation>) -> Seq<
    Seq<char>,
> {
    let done = cancelled_labels(undone, Cancelled::Either);
    let failed = cancel_failures(undone);
    seq![
        "Booking failed for: "@ + joined(failures, ", "@) + ". Rolled back the whole group."@,
    ] + line_if(done, "Cancelled: "@ + joined(done, ", "@)) + line_if(
        failed,
        "WARNING: rollback failed for: "@ + joined(failed, ", "@)
            + " \u{2014} please cancel manually."@,
    )
}

/// Reports a group that was undone. An account that had nothing to cancel is undone as well.
pub fn rollback_report(failures: &Vec<String>, undone: &Vec<Cancellation>) -> (r: String)
    ensures
        r@ == joined(rollback_lines(texts(failures@), undone@), "\n"@),
{
    let mut lines: Vec<String> = Vec::new();
    proof {
        reveal_strlit("");
        assert(forall|s: Seq<char>| #[trigger] (s + ""@) =~= s);
        assert(texts(lines@) =~= Seq::empty());
    }
    let mut first = "Booking failed for: ".to_owned();
    first.append(join(failures, ", ").as_str());
    first.append(". Rolled back the whole group.");
    add_line(&mut lines, first);
    add_listed(&mut lines, "Cancelled: ", &labels_of(undone, Cancelled::Either), "");
    add_listed(
        &mut lines,
        "WARNING: rollback failed for: ",
        &failures_of(undone),
        " \u{2014} please cancel manually.",
    );
    assert(texts(lines@) =~= rollback_lines(texts(failures@), undone@));
    join(&lines, "\n")
}

/// Each account's cancellation is reported once: as cancelled, as nothing to cancel, or as
/// failed.
pub proof fn every_cancellation_is_reported(list: Seq<Cancellation>)
    ensures
        cancelled_labels(list, Cancelled::Yes).len() + cancelled_labels(
            list,
            Cancelled::Nothing,
        ).len() + cancel_failures(list).len() == list.len(),
    decreases list.len(),
{
    if list.len() > 0 {
        every_cancellation_is_reported(list.drop_last());
    }
}

// ---------------------------------------------------------------------------
// Laws
// ---------------------------------------------------------------------------

/// Whether a report has a line of this title that names somebody.
pub open spec fn says_of(lines: Seq<Seq<char>>, title: Seq<char>, name: Seq<char>) -> bool {
    exists|k: int| 0 <= k < lines.len() && #[trigger] names_behind(lines[k], title, name)
}

/// Whether a line begins with a title and names somebody behind it.
pub open spec fn names_behind(line: Seq<char>, title: Seq<char>, name: Seq<char>) -> bool {
    begins_with(line, title) && occurs_in(line.skip(title.len() as int), name)
}

/// Whether a report has a line of this title.
pub open spec fn has_title(lines: Seq<Seq<char>>, title: Seq<char>) -> bool {
    exists|k: int| 0 <= k < lines.len() && begins_with(#[trigger] lines[k], title)
}

proof fn lemma_line_names(title: Seq<char>, names: Seq<Seq<char>>, end: Seq<char>, i: int)
    requires
        0 <= i < names.len(),
    ensures
        names_behind(title + joined(names, ", "@) + end, title, names[i]),
{
    let line = title + joined(names, ", "@) + end;
    assert(line.subrange(0, title.len() as int) =~= title);
    assert(line.skip(title.len() as int) =~= Seq::empty() + joined(names, ", "@) + end);
    joining_keeps_every_text(names, ", "@, i);
    parts_stand_in_the_whole(Seq::empty(), joined(names, ", "@), end, names[i]);
}

proof fn lemma_cancelled(list: Seq<Cancellation>)
    ensures
        cancelled_labels(list, Cancelled::Yes) == list.filter(
            |c: Cancellation| c.result matches Ok(Some(_)),
        ).map_values(|c: Cancellation| c.label@),
        cancelled_labels(list, Cancelled::Nothing) == list.filter(
            |c: Cancellation| c.result matches Ok(None),
        ).map_values(|c: Cancellation| c.label@),
        cancelled_labels(list, Cancelled::Either) == list.filter(
            |c: Cancellation| c.result is Ok,
        ).map_values(|c: Cancellation| c.label@),
        cancel_failures(list) == list.filter(|c: Cancellation| c.result is Err).map_values(
            |c: Cancellation| c.label@ + " ("@ + c.result->Err_0@ + ")"@,
        ),
    decreases list.len(),
{
    reveal(Seq::filter);
    if list.len() > 0 {
        lemma_cancelled(list.drop_last());
    }
    assert(cancelled_labels(list, Cancelled::Yes) =~= list.filter(
        |c: Cancellation| c.result matches Ok(Some(_)),
    ).map_values(|c: Cancellation| c.label@));
    assert(cancelled_labels(list, Cancelled::Nothing) =~= list.filter(
        |c: Cancellation| c.result matches Ok(None),
    ).map_values(|c: Cancellation| c.label@));
    assert(cancelled_labels(list, Cancelled::Either) =~= list.filter(
        |c: Cancellation| c.result is Ok,
    ).map_values(|c: Cancellation| c.label@));
    assert(cancel_failures(list) =~= list.filter(|c: Cancellation| c.result is Err).map_values(
        |c: Cancellation| c.label@ + " ("@ + c.result->Err_0@ + ")"@,
    ));
}

proof fn lemma_attempted(list: Seq<Attempted>)
    ensures
        booked_accounts(list) == list.filter(
            |a: Attempted| a.attempt is Booked,
        ).map_values(|a: Attempted| a.account@),
        waiting_accounts(list) == list.filter(
            |a: Attempted| a.attempt matches Attempt::Refused(BookError::SlotNotOpen(_)),
        ).map_values(|a: Attempted| a.account@),
    decreases list.len(),
{
    reveal(Seq::filter);
    if list.len() > 0 {
        lemma_attempted(list.drop_last());
    }
    assert(booked_accounts(list) =~= list.filter(
        |a: Attempted| a.attempt is Booked,
    ).map_values(|a: Attempted| a.account@));
    assert(waiting_accounts(list) =~= list.filter(
        |a: Attempted| a.attempt matches Attempt::Refused(BookError::SlotNotOpen(_)),
    ).map_values(|a: Attempted| a.account@));
}

/// Whether a note on an account says why nothing was booked for it.
pub open spec fn notes_failure(note: Seq<char>, a: Attempted) -> bool {
    match a.attempt {
        Attempt::Booked => false,
        Attempt::Refused(BookError::SlotNotOpen(_)) => note == a.account.label@ + " ("@
            + "slot not open yet"@ + ")"@,
        Attempt::Refused(BookError::Rejected { status, message }) => note == a.account.label@
            + " ("@ + ("booking rejected ("@ + status@ + "): "@ + message@) + ")"@,
        Attempt::Refused(BookError::Request(e)) => note == a.account.label@ + " ("@ + e@ + ")"@,
        Attempt::Failed(e) => note == a.account.label@ + " ("@ + e@ + ")"@,
    }
}

/// Whether an attempt counts as failed: a slot that is not open does so only in a group.
pub open spec fn counts_as_failed(a: Attempted, group: bool) -> bool {
    match a.attempt {
        Attempt::Booked => false,
        Attempt::Refused(BookError::SlotNotOpen(_)) => group,
        _ => true,
    }
}

#[verifier::spinoff_prover]
#[verifier::rlimit(40)]
proof fn lemma_failures(list: Seq<Attempted>, group: bool)
    ensures
        failure_notes(list, group).len() == list.filter(
            |a: Attempted| counts_as_failed(a, group),
        ).len(),
        forall|k: int|
            0 <= k < failure_notes(list, group).len() ==> notes_failure(
                #[trigger] failure_notes(list, group)[k],
                list.filter(|a: Attempted| counts_as_failed(a, group))[k],
            ),
        forall|i: int|
            0 <= i < list.len() && counts_as_failed(#[trigger] list[i], group) ==> exists|k: int|
                0 <= k < failure_notes(list, group).len() && notes_failure(
                    #[trigger] failure_notes(list, group)[k],
                    list[i],
                ),
    decreases list.len(),
{
    reveal(Seq::filter);
    let notes = failure_notes(list, group);
    let failed = list.filter(|a: Attempted| counts_as_failed(a, group));
    if list.len() > 0 {
        let front = list.drop_last();
        lemma_failures(front, group);
        let before = failure_notes(front, group);
        let failed_before = front.filter(|a: Attempted| counts_as_failed(a, group));
        assert forall|k: int| 0 <= k < notes.len() implies notes_failure(
            #[trigger] notes[k],
            failed[k],
        ) by {
            if k < before.len() {
                assert(notes[k] == before[k]);
                assert(failed[k] == failed_before[k]);
            }
        }
        assert forall|i: int| 0 <= i < list.len() && counts_as_failed(
            #[trigger] list[i],
            group,
        ) implies exists|k: int|
            0 <= k < notes.len() && notes_failure(#[trigger] notes[k], list[i]) by {
            if i < front.len() {
                assert(front[i] == list[i]);
                let k = choose|k: int|
                    0 <= k < before.len() && notes_failure(#[trigger] before[k], front[i]);
                assert(notes[k] == before[k]);
            } else {
                assert(notes[notes.len() - 1] == notes.last());
            }
        }
    }
}

proof fn lemma_every_entry_is_picked<T>(
    list: Seq<T>,
    wanted: spec_fn(T) -> bool,
    name: spec_fn(T) -> Seq<char>,
    i: int,
)
    requires
        0 <= i < list.len(),
        wanted(list[i]),
    ensures
        exists|k: int|
            0 <= k < list.filter(wanted).map_values(name).len() && #[trigger] list.filter(
                wanted,
            ).map_values(name)[k] == name(list[i]),
{
    let picked = list.filter(wanted);
    list.lemma_filter_contains(wanted, i);
    let k = choose|k: int| 0 <= k < picked.len() && picked[k] == list[i];
    assert(picked.map_values(name)[k] == name(list[i]));
}

/// Every cancellation shows in the report. An account whose cancellation failed is named with
/// the reason in a line that says so, one without a booking in a line that says that, one whose
/// booking was cancelled in a line that says that; such a line is there only where there is such
/// an account; and that there is nothing to cancel is said only where nothing was asked for.
#[verifier::spinoff_prover]
#[verifier::rlimit(40)]
pub proof fn every_cancellation_shows_in_the_report(list: Vec<Cancellation>, r: String)
    requires
        call_ensures(cancel_report, (&list,), r),
    ensures
        exists|lines: Seq<Seq<char>>|
            r@ == #[trigger] joined(lines, "\n"@) && reports_every_cancellation(lines, list@),
{
    let lines = cancel_lines(list@);
    let all = list@;
    lemma_cancelled(all);
    every_cancellation_is_reported(all);
    reveal_strlit("Cancelled for: ");
    reveal_strlit("No booking found for: ");
    reveal_strlit("Cancellation failed for: ");
    reveal_strlit("Nothing to cancel.");
    let yes = cancelled_labels(all, Cancelled::Yes);
    let nothing = cancelled_labels(all, Cancelled::Nothing);
    let failed = cancel_failures(all);
    let a = "Cancelled for: "@ + joined(yes, ", "@);
    let b = "No booking found for: "@ + joined(nothing, ", "@);
    let c = "Cancellation failed for: "@ + joined(failed, ", "@);
    assert(a + Seq::empty() =~= a && b + Seq::empty() =~= b && c + Seq::empty() =~= c);
    let first: int = if yes.len() == 0 { 0 } else { 1 };
    let second: int = first + if nothing.len() == 0 { 0int } else { 1 };
    assert(yes.len() > 0 ==> lines[0] == a);
    assert(nothing.len() > 0 ==> lines[first] == b);
    assert(failed.len() > 0 ==> lines[second] == c);
    assert forall|i: int| 0 <= i < all.len() implies cancellation_shown(
        lines,
        #[trigger] all[i],
    ) by {
        let of = all[i];
        match of.result {
            Ok(Some(_)) => {
                lemma_every_entry_is_picked(
                    all,
                    |c: Cancellation| c.result matches Ok(Some(_)),
                    |c: Cancellation| c.label@,
                    i,
                );
                let k = choose|k: int| 0 <= k < yes.len() && #[trigger] yes[k] == of.label@;
                lemma_line_names("Cancelled for: "@, yes, Seq::empty(), k);
                assert(names_behind(lines[0], "Cancelled for: "@, of.label@));
            },
            Ok(None) => {
                lemma_every_entry_is_picked(
                    all,
                    |c: Cancellation| c.result matches Ok(None),
                    |c: Cancellation| c.label@,
                    i,
                );
                let k = choose|k: int|
                    0 <= k < nothing.len() && #[trigger] nothing[k] == of.label@;
                lemma_line_names("No booking found for: "@, nothing, Seq::empty(), k);
                assert(names_behind(lines[first], "No booking found for: "@, of.label@));
            },
            Err(e) => {
                lemma_every_entry_is_picked(
                    all,
                    |c: Cancellation| c.result is Err,
                    |c: Cancellation| c.label@ + " ("@ + c.result->Err_0@ + ")"@,
                    i,
                );
                let note = of.label@ + " ("@ + e@ + ")"@;
                let k = choose|k: int| 0 <= k < failed.len() && #[trigger] failed[k] == note;
                lemma_line_names("Cancellation failed for: "@, failed, Seq::empty(), k);
                assert(names_behind(lines[second], "Cancellation failed for: "@, note));
            },
        }
    }
    assert(a.subrange(0, "Cancelled for: "@.len() as int) =~= "Cancelled for: "@);
    assert(b.subrange(0, "No booking found for: "@.len() as int) =~= "No booking found for: "@);
    assert(c.subrange(0, "Cancellation failed for: "@.len() as int)
        =~= "Cancellation failed for: "@);
    lemma_titles_differ(a, b, c);
    assert(forall|k: int|
        0 <= k < lines.len() ==> #[trigger] lines[k] == a || lines[k] == b || lines[k] == c
            || lines[k] == "Nothing to cancel."@);
    lemma_something_picked(all, |c: Cancellation| c.result matches Ok(Some(_)));
    lemma_something_picked(all, |c: Cancellation| c.result matches Ok(None));
    lemma_something_picked(all, |c: Cancellation| c.result is Err);
    assert(reports_every_cancellation(lines, all));
}

proof fn lemma_something_picked<T>(list: Seq<T>, wanted: spec_fn(T) -> bool)
    ensures
        list.filter(wanted).len() > 0 ==> exists|i: int|
            0 <= i < list.len() && wanted(#[trigger] list[i]),
{
    let picked = list.filter(wanted);
    if picked.len() > 0 {
        list.lemma_filter_pred(wanted, 0);
        list.lemma_filter_contains_rev(wanted, picked[0]);
        let i = choose|i: int| 0 <= i < list.len() && list[i] == picked[0];
        assert(wanted(list[i]));
    }
}

#[verifier::spinoff_prover]
#[verifier::rlimit(40)]
proof fn lemma_titles_differ(a: Seq<char>, b: Seq<char>, c: Seq<char>)
    requires
        begins_with(a, "Cancelled for: "@),
        begins_with(b, "No booking found for: "@),
        begins_with(c, "Cancellation failed for: "@),
    ensures
        !begins_with(b, "Cancelled for: "@),
        !begins_with(c, "Cancelled for: "@),
        !begins_with(a, "No booking found for: "@),
        !begins_with(c, "No booking found for: "@),
        !begins_with(a, "Cancellation failed for: "@),
        !begins_with(b, "Cancellation failed for: "@),
        a != "Nothing to cancel."@,
        b != "Nothing to cancel."@,
        c != "Nothing to cancel."@,
        !begins_with("Nothing to cancel."@, "Cancelled for: "@),
        !begins_with("Nothing to cancel."@, "No booking found for: "@),
        !begins_with("Nothing to cancel."@, "Cancellation failed for: "@),
{
    reveal_strlit("Cancelled for: ");
    reveal_strlit("No booking found for: ");
    reveal_strlit("Cancellation failed for: ");
    reveal_strlit("Nothing to cancel.");
    let x = "Cancelled for: "@;
    let y = "No booking found for: "@;
    let z = "Cancellation failed for: "@;
    let n = "Nothing to cancel."@;
    assert(a.subrange(0, x.len() as int)[0] == a[0] && a.subrange(0, x.len() as int)[6] == a[6]);
    assert(b.subrange(0, y.len() as int)[0] == b[0] && b.subrange(0, y.len() as int)[2] == b[2]);
    assert(c.subrange(0, z.len() as int)[0] == c[0] && c.subrange(0, z.len() as int)[6] == c[6]);
    assert forall|s: Seq<char>| #[trigger] begins_with(s, x) implies s[0] == 'C' && s[6]
        == 'l' by {
        assert(s.subrange(0, x.len() as int)[0] == s[0]);
        assert(s.subrange(0, x.len() as int)[6] == s[6]);
    }
    assert forall|s: Seq<char>| #[trigger] begins_with(s, y) implies s[0] == 'N' && s[2]
        == ' ' by {
        assert(s.subrange(0, y.len() as int)[0] == s[0]);
        assert(s.subrange(0, y.len() as int)[2] == s[2]);
    }
    assert forall|s: Seq<char>| #[trigger] begins_with(s, z) implies s[0] == 'C' && s[6]
        == 'l' && s[7] == 'a' by {
        assert(s.subrange(0, z.len() as int)[0] == s[0]);
        assert(s.subrange(0, z.len() as int)[6] == s[6]);
        assert(s.subrange(0, z.len() as int)[7] == s[7]);
    }
    assert forall|s: Seq<char>| #[trigger] begins_with(s, x) implies s[7] == 'e' by {
        assert(s.subrange(0, x.len() as int)[7] == s[7]);
    }
    assert(n[0] == 'N' && n[2] == 't');
}

/// Whether a cancellation shows in the lines of a report.
pub open spec fn cancellation_shown(lines: Seq<Seq<char>>, c: Cancellation) -> bool {
    match c.result {
        Ok(Some(_)) => says_of(lines, "Cancelled for: "@, c.label@),
        Ok(None) => says_of(lines, "No booking found for: "@, c.label@),
        Err(e) => says_of(lines, "Cancellation failed for: "@, c.label@ + " ("@ + e@ + ")"@),
    }
}

/// Whether the lines of a report show each cancellation, and nothing that did not happen.
pub open spec fn reports_every_cancellation(
    lines: Seq<Seq<char>>,
    list: Seq<Cancellation>,
) -> bool {
    &&& forall|i: int| 0 <= i < list.len() ==> cancellation_shown(lines, #[trigger] list[i])
    &&& lines.contains("Nothing to cancel."@) <==> list.len() == 0
    &&& has_title(lines, "Cancelled for: "@) ==> exists|i: int|
        0 <= i < list.len() && ((#[trigger] list[i]).result matches Ok(Some(_)))
    &&& has_title(lines, "No booking found for: "@) ==> exists|i: int|
        0 <= i < list.len() && ((#[trigger] list[i]).result matches Ok(None))
    &&& has_title(lines, "Cancellation failed for: "@) ==> exists|i: int|
        0 <= i < list.len() && ((#[trigger] list[i]).result is Err)
    &&& forall|k: int|
        0 <= k < lines.len() ==> {
            ||| #[trigger] lines[k] == "Nothing to cancel."@
            ||| k == 0 && lines[k] == "Cancelled for: "@ + joined(
                list.filter(|c: Cancellation| c.result matches Ok(Some(_))).map_values(
                    |c: Cancellation| c.label@,
                ),
                ", "@,
            )
            ||| lines[k] == "No booking found for: "@ + joined(
                list.filter(|c: Cancellation| c.result matches Ok(None)).map_values(
                    |c: Cancellation| c.label@,
                ),
                ", "@,
            )
            ||| k == lines.len() - 1 && lines[k] == "Cancellation failed for: "@ + joined(
                list.filter(|c: Cancellation| c.result is Err).map_values(
                    |c: Cancellation| c.label@ + " ("@ + c.result->Err_0@ + ")"@,
                ),
                ", "@,
            )
        }
}

/// Every attempt shows in the answer to a booking. An account that was booked is named as booked
/// with the session, one whose slot is not open as tried again, with how often and how long, one
/// that failed with its reason; and booking goes on in the background for exactly those whose
/// slot is not open.
#[verifier::spinoff_prover]
#[verifier::rlimit(40)]
pub proof fn every_attempt_shows_in_the_report(
    session_id: &str,
    list: Vec<Attempted>,
    policy: RetryPolicy,
    r: BookReport,
)
    requires
        call_ensures(book_report, (session_id, &list, policy), r),
    ensures
        account_views(r.retry@) == list@.filter(
            |a: Attempted| a.attempt matches Attempt::Refused(BookError::SlotNotOpen(_)),
        ).map_values(|a: Attempted| a.account@),
        exists|lines: Seq<Seq<char>>|
            r.reply@ == #[trigger] joined(lines, "\n"@) && reports_every_attempt(
                lines,
                session_id@,
                list@,
                policy,
            ),
{
    let all = list@;
    let lines = book_lines(session_id@, all, policy);
    lemma_attempted(all);
    lemma_failures(all, false);
    let booked = labels(booked_accounts(all));
    let waiting = labels(waiting_accounts(all));
    let failed = failure_notes(all, false);
    let end = retry_note(policy);
    let title = "Booked `"@ + session_id@ + "` for: "@;
    let a = booked_line(session_id@, booked);
    let b = retrying_line(waiting, policy);
    let c = "Booking failed for: "@ + joined(failed, ", "@);
    assert(a =~= title + joined(booked, ", "@) + Seq::empty());
    assert(b =~= "Slot not open yet for: "@ + joined(waiting, ", "@) + end);
    assert(c =~= c + Seq::empty());
    let first: int = if booked.len() == 0 { 0 } else { 1 };
    let second: int = first + if waiting.len() == 0 { 0int } else { 1 };
    assert(booked.len() > 0 ==> lines[0] == a);
    assert(waiting.len() > 0 ==> lines[first] == b);
    assert(failed.len() > 0 ==> lines[second] == c);
    assert(booked =~= all.filter(|x: Attempted| x.attempt is Booked).map_values(
        |x: Attempted| x.account.label@,
    ));
    assert(waiting =~= all.filter(
        |x: Attempted| x.attempt matches Attempt::Refused(BookError::SlotNotOpen(_)),
    ).map_values(|x: Attempted| x.account.label@));
    assert forall|i: int| 0 <= i < all.len() implies attempt_shown(
        lines,
        session_id@,
        policy,
        #[trigger] all[i],
    ) by {
        let of = all[i];
        match of.attempt {
            Attempt::Booked => {
                lemma_every_entry_is_picked(
                    all,
                    |x: Attempted| x.attempt is Booked,
                    |x: Attempted| x.account.label@,
                    i,
                );
                let k = choose|k: int|
                    0 <= k < booked.len() && #[trigger] booked[k] == of.account.label@;
                lemma_line_names(title, booked, Seq::empty(), k);
                assert(names_behind(lines[0], title, of.account.label@));
            },
            Attempt::Refused(BookError::SlotNotOpen(_)) => {
                lemma_every_entry_is_picked(
                    all,
                    |x: Attempted| x.attempt matches Attempt::Refused(BookError::SlotNotOpen(_)),
                    |x: Attempted| x.account.label@,
                    i,
                );
                let k = choose|k: int|
                    0 <= k < waiting.len() && #[trigger] waiting[k] == of.account.label@;
                lemma_line_names("Slot not open yet for: "@, waiting, end, k);
                assert(b.subrange(b.len() - end.len(), b.len() as int) =~= end);
                assert(names_behind(
                    lines[first],
                    "Slot not open yet for: "@,
                    of.account.label@,
                ) && crate::text::ends_with(lines[first], end));
            },
            _ => {
                assert(counts_as_failed(all[i], false));
                let k = choose|k: int|
                    0 <= k < failed.len() && notes_failure(#[trigger] failed[k], all[i]);
                lemma_line_names("Booking failed for: "@, failed, Seq::empty(), k);
                assert(names_behind(lines[second], "Booking failed for: "@, failed[k])
                    && notes_failure(failed[k], of));
            },
        }
    }
    assert(reports_every_attempt(lines, session_id@, all, policy));
}

/// How often and for how long bookings are tried again.
pub open spec fn retry_note(policy: RetryPolicy) -> Seq<char> {
    ". Retrying every "@ + decimal(policy.interval as nat) + "s for up to "@ + decimal(
        policy.duration as nat,
    ) + "s..."@
}

/// Whether an attempt shows in the lines of a report.
pub open spec fn attempt_shown(
    lines: Seq<Seq<char>>,
    session_id: Seq<char>,
    policy: RetryPolicy,
    a: Attempted,
) -> bool {
    match a.attempt {
        Attempt::Booked => says_of(
            lines,
            "Booked `"@ + session_id + "` for: "@,
            a.account.label@,
        ),
        Attempt::Refused(BookError::SlotNotOpen(_)) => exists|k: int|
            0 <= k < lines.len() && #[trigger] names_behind(
                lines[k],
                "Slot not open yet for: "@,
                a.account.label@,
            ) && crate::text::ends_with(lines[k], retry_note(policy)),
        _ => exists|k: int, note: Seq<char>|
            0 <= k < lines.len() && #[trigger] names_behind(
                lines[k],
                "Booking failed for: "@,
                note,
            ) && notes_failure(note, a),
    }
}

/// Whether the lines of a report show each attempt, and nobody under a heading to which they do
/// not belong.
pub open spec fn reports_every_attempt(
    lines: Seq<Seq<char>>,
    session_id: Seq<char>,
    list: Seq<Attempted>,
    policy: RetryPolicy,
) -> bool {
    &&& forall|i: int|
        0 <= i < list.len() ==> attempt_shown(lines, session_id, policy, #[trigger] list[i])
    &&& list.len() == 0 ==> lines.len() == 0
    &&& forall|k: int|
        0 <= k < lines.len() ==> {
            ||| k == 0 && #[trigger] lines[k] == "Booked `"@ + session_id + "` for: "@ + joined(
                list.filter(|a: Attempted| a.attempt is Booked).map_values(
                    |a: Attempted| a.account.label@,
                ),
                ", "@,
            )
            ||| lines[k] == "Slot not open yet for: "@ + joined(
                list.filter(
                    |a: Attempted| a.attempt matches Attempt::Refused(BookError::SlotNotOpen(_)),
                ).map_values(|a: Attempted| a.account.label@),
                ", "@,
            ) + retry_note(policy)
            ||| k == lines.len() - 1 && exists|notes: Seq<Seq<char>>|
                lines[k] == "Booking failed for: "@ + #[trigger] joined(notes, ", "@)
                    && notes_of_failures(notes, list, false)
        }
}

/// Whether notes are those on the attempts that failed, in order.
pub open spec fn notes_of_failures(
    notes: Seq<Seq<char>>,
    list: Seq<Attempted>,
    group: bool,
) -> bool {
    let failed = list.filter(|a: Attempted| counts_as_failed(a, group));
    &&& notes.len() == failed.len()
    &&& forall|k: int| 0 <= k < notes.len() ==> notes_failure(#[trigger] notes[k], failed[k])
}

/// A group is confirmed exactly where every attempt was booked, and the reply then names them
/// all. Otherwise exactly the accounts that were booked, all of them, are undone, and every other
/// account of the group is among the failures, with its reason.
#[verifier::spinoff_prover]
#[verifier::rlimit(40)]
pub proof fn a_group_is_booked_as_a_whole_or_undone(
    session_id: &str,
    list: Vec<Attempted>,
    r: GroupVerdict,
)
    requires
        call_ensures(group_verdict, (session_id, &list), r),
    ensures
        r is Confirmed <==> forall|i: int|
            0 <= i < list@.len() ==> (#[trigger] list@[i]).attempt is Booked,
        r matches GroupVerdict::Confirmed(reply) ==> reply@ == "Booked `"@ + session_id@
            + "` for: "@ + joined(
            list@.map_values(|a: Attempted| a.account.label@),
            ", "@,
        ),
        r matches GroupVerdict::RollBack { accounts, failures } ==> {
            &&& account_views(accounts@) == list@.filter(
                |a: Attempted| a.attempt is Booked,
            ).map_values(|a: Attempted| a.account@)
            &&& notes_of_failures(texts(failures@), list@, true)
            &&& forall|i: int|
                0 <= i < list@.len() && !((#[trigger] list@[i]).attempt is Booked) ==> exists|
                    k: int,
                |
                    0 <= k < texts(failures@).len() && notes_failure(
                        #[trigger] texts(failures@)[k],
                        list@[i],
                    )
        },
{
    let all = list@;
    lemma_attempted(all);
    lemma_failures(all, true);
    if forall|i: int| 0 <= i < all.len() ==> (#[trigger] all[i]).attempt is Booked {
        lemma_something_picked(all, |a: Attempted| counts_as_failed(a, true));
        lemma_all_picked(all, |a: Attempted| a.attempt is Booked);
        assert(labels(booked_accounts(all)) =~= all.map_values(
            |a: Attempted| a.account.label@,
        ));
    } else {
        let i = choose|i: int| 0 <= i < all.len() && !((#[trigger] all[i]).attempt is Booked);
        assert(counts_as_failed(all[i], true));
    }
    assert forall|i: int| 0 <= i < all.len() && !((#[trigger] all[i]).attempt is Booked) implies
        counts_as_failed(all[i], true) by {}
}

proof fn lemma_all_picked<T>(list: Seq<T>, wanted: spec_fn(T) -> bool)
    requires
        forall|i: int| 0 <= i < list.len() ==> wanted(#[trigger] list[i]),
    ensures
        list.filter(wanted) == list,
    decreases list.len(),
{
    reveal(Seq::filter);
    if list.len() > 0 {
        let front = list.drop_last();
        assert forall|i: int| 0 <= i < front.len() implies wanted(#[trigger] front[i]) by {
            assert(front[i] == list[i]);
        }
        lemma_all_picked(front, wanted);
        assert(wanted(list[list.len() - 1]));
        assert(list.filter(wanted) =~= list);
    } else {
        assert(list.filter(wanted) =~= list);
    }
}

/// The report on a group that was undone gives every failure, names every account whose booking
/// is gone, and warns of every account whose booking could not be undone, with the reason; it
/// warns of no other.
#[verifier::spinoff_prover]
#[verifier::rlimit(40)]
pub proof fn the_rollback_report_hides_nothing(
    failures: Vec<String>,
    undone: Vec<Cancellation>,
    r: String,
)
    requires
        call_ensures(rollback_report, (&failures, &undone), r),
    ensures
        exists|lines: Seq<Seq<char>>|
            r@ == #[trigger] joined(lines, "\n"@) && reports_rollback(
                lines,
                texts(failures@),
                undone@,
            ),
{
    let all = undone@;
    let lines = rollback_lines(texts(failures@), all);
    lemma_cancelled(all);
    let done = cancelled_labels(all, Cancelled::Either);
    let failed = cancel_failures(all);
    let plea = " \u{2014} please cancel manually."@;
    let a = "Cancelled: "@ + joined(done, ", "@);
    let b = "WARNING: rollback failed for: "@ + joined(failed, ", "@) + plea;
    assert(a =~= a + Seq::empty());
    let second: int = 1 + if done.len() == 0 { 0int } else { 1 };
    assert(done.len() > 0 ==> lines[1] == a);
    assert(failed.len() > 0 ==> lines[second] == b);
    assert forall|i: int| 0 <= i < all.len() implies rollback_shown(lines, #[trigger] all[i]) by {
        let of = all[i];
        match of.result {
            Ok(_) => {
                lemma_every_entry_is_picked(
                    all,
                    |c: Cancellation| c.result is Ok,
                    |c: Cancellation| c.label@,
                    i,
                );
                let k = choose|k: int| 0 <= k < done.len() && #[trigger] done[k] == of.label@;
                lemma_line_names("Cancelled: "@, done, Seq::empty(), k);
                assert(names_behind(lines[1], "Cancelled: "@, of.label@));
            },
            Err(e) => {
                lemma_every_entry_is_picked(
                    all,
                    |c: Cancellation| c.result is Err,
                    |c: Cancellation| c.label@ + " ("@ + c.result->Err_0@ + ")"@,
                    i,
                );
                let note = of.label@ + " ("@ + e@ + ")"@;
                let k = choose|k: int| 0 <= k < failed.len() && #[trigger] failed[k] == note;
                lemma_line_names("WARNING: rollback failed for: "@, failed, plea, k);
                assert(names_behind(lines[second], "WARNING: rollback failed for: "@, note));
            },
        }
    }
    assert(lines[0] == "Booking failed for: "@ + joined(texts(failures@), ", "@)
        + ". Rolled back the whole group."@);
    assert(reports_rollback(lines, texts(failures@), all));
}

/// Whether what undoing a booking came to shows in the lines of a report.
pub open spec fn rollback_shown(lines: Seq<Seq<char>>, c: Cancellation) -> bool {
    match c.result {
        Ok(_) => says_of(lines, "Cancelled: "@, c.label@),
        Err(e) => says_of(
            lines,
            "WARNING: rollback failed for: "@,
            c.label@ + " ("@ + e@ + ")"@,
        ),
    }
}

/// Whether the lines of a report show the failures of a group and what undoing it came to, and
/// nothing else.
pub open spec fn reports_rollback(
    lines: Seq<Seq<char>>,
    failures: Seq<Seq<char>>,
    undone: Seq<Cancellation>,
) -> bool {
    &&& lines.len() > 0
    &&& lines[0] == "Booking failed for: "@ + joined(failures, ", "@)
        + ". Rolled back the whole group."@
    &&& forall|i: int| 0 <= i < undone.len() ==> rollback_shown(lines, #[trigger] undone[i])
    &&& forall|k: int|
        0 < k < lines.len() ==> {
            ||| k == 1 && #[trigger] lines[k] == "Cancelled: "@ + joined(
                undone.filter(|c: Cancellation| c.result is Ok).map_values(
                    |c: Cancellation| c.label@,
                ),
                ", "@,
            )
            ||| k == lines.len() - 1 && lines[k] == "WARNING: rollback failed for: "@ + joined(
                undone.filter(|c: Cancellation| c.result is Err).map_values(
                    |c: Cancellation| c.label@ + " ("@ + c.result->Err_0@ + ")"@,
                ),
                ", "@,
            ) + " \u{2014} please cancel manually."@
        }
    &&& undone.len() == 0 ==> lines.len() == 1
}

/// Several accounts, and only several, are booked as a group; a booking that stands counts as
/// booked, and a refusal keeps its reason.
pub proof fn several_accounts_are_a_group(
    targets: Vec<Account>,
    group: bool,
    outcome: Result<Json, BookError>,
    attempt: Attempt,
)
    requires
        call_ensures(is_group, (&targets,), group),
        call_ensures(Attempt::from_outcome, (outcome,), attempt),
    ensures
        group <==> targets@.len() >= 2,
        attempt is Booked <==> outcome is Ok,
        outcome matches Err(e) ==> attempt == Attempt::Refused(e),
{
}

} // verus!
