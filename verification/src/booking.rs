//! Booking attempts: how the platform's answers are read, and when an attempt is repeated.

use vstd::prelude::*;

use crate::json::Json;
use crate::number::{decimal, decimal_text};
use crate::text::eq_ignore_ascii_case;

verus! {

/// Why a booking attempt failed.
#[derive(Debug)]
pub enum BookError {
    /// The slot is not open yet; the text is the platform's answer.
    SlotNotOpen(String),
    /// The platform answered, but declined the booking (e.g. the member has reached their
    /// reservation limit, `status: "noCredits"`). Repeating the attempt will not help, so this
    /// is distinct from `SlotNotOpen`.
    Rejected { status: String, message: String },
    /// The request itself failed; the text says how.
    Request(String),
}

impl BookError {
    /// The message of this error.
    pub open spec fn shown(&self) -> Seq<char> {
        match *self {
            BookError::SlotNotOpen(body) => "slot not open yet: "@ + body@,
            BookError::Rejected { status, message } => "booking rejected ("@ + status@ + "): "@
                + message@,
            BookError::Request(e) => e@,
        }
    }

    /// Renders the message of this error.
    pub fn to_text(&self) -> (r: String)
        ensures
            r@ == self.shown(),
    {
        match self {
            BookError::SlotNotOpen(body) => {
                let mut out = "slot not open yet: ".to_owned();
                out.append(body.as_str());
                out
            },
            BookError::Rejected { status, message } => {
                let mut out = "booking rejected (".to_owned();
                out.append(status.as_str());
                out.append("): ");
                out.append(message.as_str());
                out
            },
            BookError::Request(e) => e.clone(),
        }
    }
}

/// The status by which an answer declines a booking: one that is given and is not `success`,
/// ASCII case aside.
pub open spec fn declining_status(body: Json) -> Option<Seq<char>> {
    match body.text_member("status"@) {
        Some(status) => if crate::text::same_ignoring_case(status, "success"@) {
            None
        } else {
            Some(status)
        },
        None => None,
    }
}

/// Interprets the answer of the booking endpoint.
///
/// The endpoint answers alike for both outcomes, so success is decided by the `status` member:
/// - a confirmed booking either omits `status` (and is a booking record) or sets it to
///   `success`;
/// - a soft rejection sets another `status` and a `message` (e.g. `status: "noCredits"`).
///
/// Only an explicit other status is a failure, so an unrecognised answer without a `status` is
/// accepted rather than dropped.
pub fn interpret_book_response(body: Json) -> (r: Result<Json, BookError>)
    ensures
        match declining_status(body) {
            None => r == Ok::<Json, BookError>(body),
            Some(declined) => r matches Err(BookError::Rejected { status, message }) && status@
                == declined && message@ == (match body.text_member("message"@) {
                Some(m) => m,
                None => declined,
            }),
        },
{
    let rejection = match body.get_text("status") {
        Some(status) => {
            if eq_ignore_ascii_case(status, "success") {
                None
            } else {
                let message = match body.get_text("message") {
                    Some(m) => m.to_owned(),
                    None => status.to_owned(),
                };
                Some(BookError::Rejected { status: status.to_owned(), message })
            }
        },
        None => None,
    };
    match rejection {
        Some(e) => Err(e),
        None => Ok(body),
    }
}

/// What to do with the answer to a booking request, by its HTTP status.
#[derive(Debug, PartialEq, Eq, Clone, Copy, Structural)]
pub enum ReplyStep {
    /// Read the answer as text: it says why the slot is not open.
    ReadConflict,
    /// Fail with the status.
    FailWithStatus,
    /// Read the answer as JSON.
    ReadBody,
}

/// Decides how the answer to a booking request is read: a conflict means that the slot is not
/// open yet, any other client or server error is a failure.
pub fn reply_step(status: u16) -> (r: ReplyStep)
    ensures
        r == (if status == 409 {
            ReplyStep::ReadConflict
        } else if 400 <= status <= 599 {
            ReplyStep::FailWithStatus
        } else {
            ReplyStep::ReadBody
        }),
{
    if status == 409 {
        ReplyStep::ReadConflict
    } else if 400 <= status && status <= 599 {
        ReplyStep::FailWithStatus
    } else {
        ReplyStep::ReadBody
    }
}

/// The answer to a booking request.
#[derive(Debug)]
pub enum BookReply {
    /// The slot is not open; the text of the answer, where it could be read.
    Conflict(Option<String>),
    /// The request, its status or its body failed.
    Failed(String),
    /// The answer's body.
    Answered(Json),
}

/// The outcome of a booking request.
pub fn book_outcome(reply: BookReply) -> (r: Result<Json, BookError>)
    ensures
        match reply {
            BookReply::Conflict(text) => r matches Err(BookError::SlotNotOpen(t)) && t@
                == crate::text::text_or(text, Seq::empty()),
            BookReply::Failed(e) => r == Err::<Json, BookError>(BookError::Request(e)),
            BookReply::Answered(body) => match declining_status(body) {
                None => r == Ok::<Json, BookError>(body),
                Some(declined) => r matches Err(BookError::Rejected { status, message }) && status@
                    == declined && message@ == (match body.text_member("message"@) {
                    Some(m) => m,
                    None => declined,
                }),
            },
        },
{
    match reply {
        BookReply::Conflict(Some(text)) => Err(BookError::SlotNotOpen(text)),
        BookReply::Conflict(None) => Err(BookError::SlotNotOpen(String::new())),
        BookReply::Failed(e) => Err(BookError::Request(e)),
        BookReply::Answered(body) => interpret_book_response(body),
    }
}

// ---------------------------------------------------------------------------
// Repeating an attempt
// ---------------------------------------------------------------------------

/// How long, and how often, an attempt is repeated, in seconds.
#[derive(Debug, Clone, Copy)]
pub struct RetryPolicy {
    pub duration: u64,
    pub interval: u64,
}

impl RetryPolicy {
    /// Whether the time for attempts is used up after `elapsed` seconds.
    pub open spec fn expired(self, elapsed: u64) -> bool {
        elapsed >= self.duration
    }
}

/// What follows a booking attempt.
#[derive(Debug)]
pub enum RetryStep {
    /// The booking stands; report this.
    Done(String),
    /// Report this, wait so many seconds, and try again.
    Retry { notice: String, wait: u64 },
    /// Stop with this message.
    GiveUp(String),
}

/// Decides what follows a booking attempt, `elapsed` seconds after the first one: an attempt is
/// repeated only while the slot is not open and the time is not used up.
pub fn retry_step(
    outcome: &Result<Json, BookError>,
    elapsed: u64,
    policy: RetryPolicy,
) -> (r: RetryStep)
    ensures
        match *outcome {
            Ok(_) => r matches RetryStep::Done(m) && m@ == "Booking confirmed!"@,
            Err(BookError::SlotNotOpen(_)) => if policy.expired(elapsed) {
                r matches RetryStep::GiveUp(m) && m@ == "Booking window expired."@
            } else {
                r matches RetryStep::Retry { notice, wait } && wait == policy.interval && notice@
                    == "Slot not open yet. Retrying in "@ + decimal(policy.interval as nat)
                    + "s..."@
            },
            Err(e) => r matches RetryStep::GiveUp(m) && m@ == "Booking failed: "@ + e.shown(),
        },
{
    match outcome {
        Ok(_) => RetryStep::Done("Booking confirmed!".to_owned()),
        Err(BookError::SlotNotOpen(_)) => {
            if elapsed >= policy.duration {
                RetryStep::GiveUp("Booking window expired.".to_owned())
            } else {
                let mut notice = "Slot not open yet. Retrying in ".to_owned();
                notice.append(decimal_text(policy.interval).as_str());
                notice.append("s...");
                RetryStep::Retry { notice, wait: policy.interval }
            }
        },
        Err(e) => {
            let mut message = "Booking failed: ".to_owned();
            message.append(e.to_text().as_str());
            RetryStep::GiveUp(message)
        },
    }
}

// ---------------------------------------------------------------------------
// Laws
// ---------------------------------------------------------------------------

/// Whether a text spells `success`, ASCII case aside.
pub open spec fn spells_success(status: Seq<char>) -> bool {
    status.len() == 7 && forall|i: int|
        0 <= i < 7 ==> {
            ||| #[trigger] status[i] == "success"@[i]
            ||| status[i] as int + 32 == "success"@[i] as int
        }
}

proof fn lemma_success_spelled(status: Seq<char>)
    ensures
        crate::text::same_ignoring_case(status, "success"@) <==> spells_success(status),
{
    reveal_strlit("success");
    crate::text::only_ascii_case_is_ignored(status, "success"@);
    let word = "success"@;
    if spells_success(status) {
        assert forall|i: int| 0 <= i < status.len() implies {
            ||| #[trigger] status[i] == word[i]
            ||| 'A' <= status[i] <= 'Z' && word[i] as int == status[i] as int + 32
            ||| 'A' <= word[i] <= 'Z' && status[i] as int == word[i] as int + 32
        } by {
            assert(status[i] == word[i] || status[i] as int + 32 == word[i] as int);
        }
    }
    if crate::text::same_ignoring_case(status, word) {
        assert forall|i: int| 0 <= i < 7 implies {
            ||| #[trigger] status[i] == word[i]
            ||| status[i] as int + 32 == word[i] as int
        } by {
            assert(status[i] == word[i] || ('A' <= status[i] <= 'Z' && word[i] as int
                == status[i] as int + 32) || ('A' <= word[i] <= 'Z' && status[i] as int
                == word[i] as int + 32));
        }
    }
}

/// An answer confirms a booking exactly where its status is missing, is no text, or spells
/// `success`. Every other status text, whichever it is, rejects the booking with that status,
/// and with the message of the answer or else the status again.
pub proof fn any_status_but_success_rejects(body: Json, r: Result<Json, BookError>)
    requires
        call_ensures(interpret_book_response, (body,), r),
    ensures
        match body.member("status"@) {
            Some(Json::Text(status)) => if spells_success(status@) {
                r == Ok::<Json, BookError>(body)
            } else {
                &&& r matches Err(BookError::Rejected { status: s, message })
                &&& s@ == status@
                &&& message@ == (match body.member("message"@) {
                    Some(Json::Text(m)) => m@,
                    _ => status@,
                })
            },
            _ => r == Ok::<Json, BookError>(body),
        },
{
    if let Some(Json::Text(status)) = body.member("status"@) {
        lemma_success_spelled(status@);
    }
}

/// What comes of a booking request is decided by its answer: a conflict is a slot that is not
/// open, a failure stays that failure, and an answer is taken as it is interpreted.
pub proof fn a_conflict_is_a_closed_slot(reply: BookReply, r: Result<Json, BookError>)
    requires
        call_ensures(book_outcome, (reply,), r),
    ensures
        r is Ok ==> reply is Answered,
        r matches Err(BookError::SlotNotOpen(_)) <==> reply is Conflict,
        r matches Err(BookError::Request(_)) <==> reply is Failed,
        reply matches BookReply::Conflict(Some(text)) ==> (r matches Err(
            BookError::SlotNotOpen(t),
        ) && t@ == text@),
        reply matches BookReply::Failed(e) ==> (r matches Err(BookError::Request(t)) && t@ == e@),
        reply matches BookReply::Answered(body) ==> (match body.member("status"@) {
            Some(Json::Text(status)) => if spells_success(status@) {
                r == Ok::<Json, BookError>(body)
            } else {
                r matches Err(BookError::Rejected { status: s, message }) && s@ == status@
            },
            _ => r == Ok::<Json, BookError>(body),
        }),
{
    if let BookReply::Answered(body) = reply {
        if let Some(Json::Text(status)) = body.member("status"@) {
            lemma_success_spelled(status@);
        }
    }
}

/// Of all HTTP statuses only a conflict tells that the slot is not open; every success is read,
/// and every other client or server error is a failure.
pub proof fn only_a_conflict_means_not_open(status: u16, r: ReplyStep)
    requires
        call_ensures(reply_step, (status,), r),
    ensures
        r is ReadConflict <==> status == 409,
        200 <= status < 300 ==> r is ReadBody,
        400 <= status < 600 && status != 409 ==> r is FailWithStatus,
        status < 400 || status >= 600 ==> r is ReadBody,
{
}

/// An attempt is repeated exactly while the slot is not open and the time is not used up, after
/// the configured interval; a booking is reported as confirmed exactly where it stands.
pub proof fn only_a_closed_slot_is_tried_again(
    outcome: Result<Json, BookError>,
    elapsed: u64,
    policy: RetryPolicy,
    r: RetryStep,
)
    requires
        call_ensures(retry_step, (&outcome, elapsed, policy), r),
    ensures
        r is Done <==> outcome is Ok,
        r is Retry <==> (outcome matches Err(BookError::SlotNotOpen(_))) && elapsed
            < policy.duration,
        r matches RetryStep::Retry { notice, wait } ==> wait == policy.interval,
        r matches RetryStep::Done(m) ==> m@ == "Booking confirmed!"@,
        outcome matches Err(BookError::Rejected { status, message }) ==> (
        r matches RetryStep::GiveUp(m) && m@ == "Booking failed: "@ + ("booking rejected ("@
            + status@ + "): "@ + message@)),
        outcome matches Err(BookError::Request(e)) ==> (r matches RetryStep::GiveUp(m) && m@
            == "Booking failed: "@ + e@),
{
}

/// The message of an error quotes what the platform said.
pub proof fn errors_quote_the_platform(e: BookError, r: String)
    requires
        call_ensures(BookError::to_text, (&e,), r),
    ensures
        match e {
            BookError::SlotNotOpen(body) => r@ == "slot not open yet: "@ + body@,
            BookError::Rejected { status, message } => r@ == "booking rejected ("@ + status@
                + "): "@ + message@,
            BookError::Request(cause) => r@ == cause@,
        },
{
}

} // verus!
