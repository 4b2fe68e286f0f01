//! The answers to Discord commands.

use vstd::prelude::*;

use crate::complete::at_most;
use crate::detail::add_line;
use crate::message::{booking_text, format_booking, format_session, session_text};
use crate::order::is_stable_sort;
use crate::session::{by_date, sort_sessions_by_date, Booking, Session};
use crate::text::texts;

verus! {

// ---------------------------------------------------------------------------
// Listing sessions
// ---------------------------------------------------------------------------

/// An entry of a listing: the text, and the id in backquotes.
pub open spec fn listed(text: Seq<char>, id: Seq<char>) -> Seq<char> {
    "- "@ + text + " (`"@ + id + "`)"@
}

fn list_entry(text: &str, id: &str) -> (r: String)
    ensures
        r@ == listed(text@, id@),
{
    let mut out = "- ".to_owned();
    out.append(text);
    out.append(" (`");
    out.append(id);
    out.append("`)");
    out
}

/// How a session is listed.
pub open spec fn session_entry() -> spec_fn(Session) -> Seq<char> {
    |s: Session| listed(session_text(s), s.id@)
}

/// How a booking is listed.
pub open spec fn booking_entry() -> spec_fn(Booking) -> Seq<char> {
    |b: Booking| listed(booking_text(b), b.id@)
}

/// What is sent in answer to a command.
#[derive(Debug)]
pub enum Reply {
    /// One message.
    Say(String),
    /// Lines, split into as many messages as they need.
    Lines(Vec<String>),
}

/// Whether lines list sessions in the order of their dates, the first `limit` of them.
pub open spec fn lists_by_date(
    lines: Seq<Seq<char>>,
    sessions: Seq<Session>,
    limit: Option<u64>,
) -> bool {
    exists|sorted: Seq<Session>| #[trigger]
        is_stable_sort(sessions, by_date(), sorted) && lines == (match limit {
            Some(n) => at_most(sorted, n as nat),
            None => sorted,
        }).map_values(session_entry())
}

/// Answers `/list`: the sessions in the order of their dates, at most `limit` of them.
pub fn list_reply(sessions: Vec<Session>, limit: Option<u64>) -> (r: Reply)
    ensures
        if sessions@.len() == 0 {
            r matches Reply::Say(m) && m@ == "No sessions available."@
        } else {
            r matches Reply::Lines(lines) && lists_by_date(texts(lines@), sessions@, limit)
        },
{
    if sessions.is_empty() {
        return Reply::Say("No sessions available.".to_owned());
    }
    let ghost input = sessions@;
    let sorted = sort_sessions_by_date(sessions);
    let ghost shown = match limit {
        Some(n) => at_most(sorted@, n as nat),
        None => sorted@,
    };
    let count: usize = match limit {
        Some(n) => if n < sorted.len() as u64 {
            n as usize
        } else {
            sorted.len()
        },
        None => sorted.len(),
    };
    let mut lines: Vec<String> = Vec::new();
    let mut i: usize = 0;
    assert(shown =~= sorted@.take(count as int));
    while i < count
        invariant
            i <= count <= sorted.len(),
            shown == sorted@.take(count as int),
            texts(lines@) == shown.take(i as int).map_values(session_entry()),
        decreases count - i,
    {
        let s = &sorted[i];
        let ghost before = texts(lines@);
        lines.push(list_entry(format_session(s).as_str(), s.id.as_str()));
        proof {
            let entry = listed(session_text(*s), s.id@);
            assert(shown[i as int] == *s);
            assert(texts(lines@) =~= before.push(entry));
            assert(shown.take(i + 1).map_values(session_entry()) =~= before.push(entry));
        }
        i = i + 1;
    }
    proof {
        assert(shown.take(shown.len() as int) =~= shown);
        assert(is_stable_sort(input, by_date(), sorted@));
    }
    Reply::Lines(lines)
}

// ---------------------------------------------------------------------------
// Listing bookings
// ---------------------------------------------------------------------------

/// What listing an account's bookings gave.
pub struct AccountBookings {
    pub label: String,
    pub bookings: Result<Vec<Booking>, String>,
}

impl AccountBookings {
    /// The lines on this account; several accounts are told apart by a header.
    pub open spec fn lines(&self, multi: bool) -> Seq<Seq<char>> {
        let header: Seq<Seq<char>> = if multi {
            seq!["**"@ + self.label@ + "**"@]
        } else {
            Seq::empty()
        };
        header + match self.bookings {
            Ok(list) => if list@.len() == 0 {
                seq![
                    if multi {
                        "- No upcoming bookings."@
                    } else {
                        "No upcoming bookings."@
                    },
                ]
            } else {
                list@.map_values(booking_entry())
            },
            Err(e) => seq!["- Failed to list bookings: "@ + e@],
        }
    }
}

/// The lines on the first accounts of a list.
pub open spec fn bookings_lines(list: Seq<AccountBookings>, multi: bool) -> Seq<Seq<char>>
    decreases list.len(),
{
    if list.len() == 0 {
        Seq::empty()
    } else {
        bookings_lines(list.drop_last(), multi) + list.last().lines(multi)
    }
}

fn add_bookings(lines: &mut Vec<String>, bookings: &Vec<Booking>)
    ensures
        texts(final(lines)@) == texts(old(lines)@) + bookings@.map_values(booking_entry()),
{
    let ghost start = texts(lines@);
    let mut i: usize = 0;
    assert(texts(lines@) =~= start + bookings@.take(0).map_values(booking_entry()));
    while i < bookings.len()
        invariant
            i <= bookings.len(),
            texts(lines@) == start + bookings@.take(i as int).map_values(booking_entry()),
        decreases bookings.len() - i,
    {
        let b = &bookings[i];
        let ghost before = texts(lines@);
        lines.push(list_entry(format_booking(b).as_str(), b.id.as_str()));
        proof {
            let entry = listed(booking_text(*b), b.id@);
            assert(texts(lines@) =~= before.push(entry));
            assert(bookings@.take(i + 1).map_values(booking_entry()) =~= bookings@.take(
                i as int,
            ).map_values(booking_entry()).push(entry));
            assert(texts(lines@) =~= start + bookings@.take(i + 1).map_values(booking_entry()));
        }
        i = i + 1;
    }
    assert(bookings@.take(bookings@.len() as int) =~= bookings@);
}

/// Answers `/bookings`: with a single account its bookings, with several the bookings of each
/// under a header, so that it is clear who has what.
pub fn bookings_reply(list: &Vec<AccountBookings>) -> (r: Vec<String>)
    ensures
        texts(r@) == bookings_lines(list@, list@.len() > 1),
{
    let multi = list.len() > 1;
    let mut lines: Vec<String> = Vec::new();
    let mut i: usize = 0;
    assert(texts(lines@) =~= bookings_lines(list@.take(0), multi));
    while i < list.len()
        invariant
            i <= list.len(),
            texts(lines@) == bookings_lines(list@.take(i as int), multi),
        decreases list.len() - i,
    {
        let of = &list[i];
        let ghost before = texts(lines@);
        proof {
            assert(list@.take(i + 1).drop_last() =~= list@.take(i as int));
            assert(list@.take(i + 1).last() == *of);
        }
        if multi {
            let mut header = "**".to_owned();
            header.append(of.label.as_str());
            header.append("**");
            add_line(&mut lines, header);
        }
        match &of.bookings {
            Ok(bookings) => {
                if bookings.is_empty() {
                    let none = if multi {
                        "- No upcoming bookings."
                    } else {
                        "No upcoming bookings."
                    };
                    add_line(&mut lines, none.to_owned());
                } else {
                    add_bookings(&mut lines, bookings);
                }
            },
            Err(e) => {
                let mut failure = "- Failed to list bookings: ".to_owned();
                failure.append(e.as_str());
                add_line(&mut lines, failure);
            },
        }
        assert(texts(lines@) =~= before + of.lines(multi));
        i = i + 1;
    }
    assert(list@.take(list@.len() as int) =~= list@);
    lines
}

// ---------------------------------------------------------------------------
// Laws
// ---------------------------------------------------------------------------

/// Whether a line lists a session by its name, or by its id where it has none, its day and its
/// time, with the id behind.
pub open spec fn lists_session(line: Seq<char>, s: Session) -> bool {
    line == "- "@ + (match s.name {
        Some(name) => name@,
        None => s.id@,
    }) + " | "@ + crate::session::shown_day(s.date) + " | "@ + (match s.time {
        Some(time) => time@,
        None => "?"@,
    }) + " (`"@ + s.id@ + "`)"@
}

/// Whether a line lists a booking by the name of its session, or by the session's id where there
/// is no name, day and time, with the booking's id behind.
pub open spec fn lists_booking(line: Seq<char>, b: Booking) -> bool {
    if b.session@.len() == 0 {
        line == "- "@ + b.session_id@ + " | "@ + "?"@ + " | "@ + "?"@ + " (`"@ + b.id@ + "`)"@
    } else {
        let s = b.session@[0];
        line == "- "@ + (match s.name {
            Some(name) => name@,
            None => b.session_id@,
        }) + " | "@ + crate::session::shown_day(s.date) + " | "@ + (match s.time {
            Some(time) => time@,
            None => "?"@,
        }) + " (`"@ + b.id@ + "`)"@
    }
}

proof fn lemma_session_entry(s: Session)
    ensures
        lists_session(session_entry()(s), s),
{
    let name = match s.name {
        Some(name) => name@,
        None => s.id@,
    };
    let time = match s.time {
        Some(time) => time@,
        None => "?"@,
    };
    assert(session_entry()(s) =~= "- "@ + name + " | "@ + crate::session::shown_day(s.date)
        + " | "@ + time + " (`"@ + s.id@ + "`)"@);
}

proof fn lemma_booking_entry(b: Booking)
    ensures
        lists_booking(booking_entry()(b), b),
{
    if b.session@.len() == 0 {
        assert(booking_entry()(b) =~= "- "@ + b.session_id@ + " | "@ + "?"@ + " | "@ + "?"@
            + " (`"@ + b.id@ + "`)"@);
    } else {
        let s = b.session@[0];
        let name = match s.name {
            Some(name) => name@,
            None => b.session_id@,
        };
        let time = match s.time {
            Some(time) => time@,
            None => "?"@,
        };
        assert(booking_entry()(b) =~= "- "@ + name + " | "@ + crate::session::shown_day(s.date)
            + " | "@ + time + " (`"@ + b.id@ + "`)"@);
    }
}

/// The listing shows the sessions, each by name, day, time and id, no earlier date behind a later
/// one; all of them, or with a limit the first so many.
#[verifier::spinoff_prover]
#[verifier::rlimit(40)]
pub proof fn sessions_are_listed_by_date(sessions: Vec<Session>, limit: Option<u64>, r: Reply)
    requires
        call_ensures(list_reply, (sessions, limit), r),
    ensures
        r is Say <==> sessions@.len() == 0,
        r matches Reply::Say(m) ==> m@ == "No sessions available."@,
        r matches Reply::Lines(lines) ==> exists|order: Seq<Session>|
            {
                &&& #[trigger] in_date_order(order)
                &&& order.len() == sessions@.len()
                &&& forall|s: Session| #[trigger] order.contains(s) <==> sessions@.contains(s)
                &&& lines@.len() == (match limit {
                    Some(n) => if n < sessions@.len() {
                        n as int
                    } else {
                        sessions@.len() as int
                    },
                    None => sessions@.len() as int,
                })
                &&& forall|i: int|
                    0 <= i < lines@.len() ==> lists_session((#[trigger] lines@[i])@, order[i])
            },
{
    if let Reply::Lines(lines) = r {
        let all = sessions@;
        let sorted = choose|sorted: Seq<Session>| #[trigger]
            is_stable_sort(all, by_date(), sorted) && texts(lines@) == (match limit {
                Some(n) => at_most(sorted, n as nat),
                None => sorted,
            }).map_values(session_entry());
        let shown = match limit {
            Some(n) => at_most(sorted, n as nat),
            None => sorted,
        };
        assert(texts(lines@).len() == lines@.len());
        crate::session::ordering_keeps_the_entries(all, by_date(), sorted, all[0]);
        assert forall|s: Session| #[trigger] sorted.contains(s) <==> all.contains(s) by {
            crate::session::ordering_keeps_the_entries(all, by_date(), sorted, s);
        }
        assert forall|i: int, j: int| 0 <= i < j < sorted.len() implies {
            &&& (#[trigger] sorted[i]).date is Some ==> (#[trigger] sorted[j]).date is Some
            &&& sorted[i].date is Some ==> !crate::text::text_before(
                sorted[j].date->0@,
                sorted[i].date->0@,
            )
        } by {
            crate::session::sessions_come_in_the_order_of_their_dates(all, sorted, i, j);
        }
        assert forall|i: int| 0 <= i < lines@.len() implies lists_session(
            (#[trigger] lines@[i])@,
            sorted[i],
        ) by {
            assert(texts(lines@)[i] == lines@[i]@);
            assert(shown[i] == sorted[i]);
            lemma_session_entry(sorted[i]);
        }
        assert(in_date_order(sorted));
    }
}

/// Whether no session of a list is followed by one of an earlier date, or a dated one by one
/// without a date.
pub open spec fn in_date_order(sessions: Seq<Session>) -> bool {
    forall|i: int, j: int|
        0 <= i < j < sessions.len() ==> {
            &&& (#[trigger] sessions[i]).date is Some ==> (#[trigger] sessions[j]).date is Some
            &&& sessions[i].date is Some ==> !crate::text::text_before(
                sessions[j].date->0@,
                sessions[i].date->0@,
            )
        }
}

/// Whether the lines from a place on show an account's bookings: under its label in bold where
/// there are several accounts, each booking in a line of its own, or that there is none, or why
/// they could not be listed.
pub open spec fn shows_account(
    lines: Seq<Seq<char>>,
    at: int,
    of: AccountBookings,
    several: bool,
) -> bool {
    let first = if several { at + 1 } else { at };
    &&& 0 <= at
    &&& several ==> at < lines.len() && lines[at] == "**"@ + of.label@ + "**"@
    &&& match of.bookings {
        Ok(list) => if list@.len() == 0 {
            first < lines.len() && lines[first] == (if several {
                "- No upcoming bookings."@
            } else {
                "No upcoming bookings."@
            })
        } else {
            first + list@.len() <= lines.len() && forall|i: int|
                0 <= i < list@.len() ==> lists_booking(
                    lines[first + i],
                    #[trigger] list@[i],
                )
        },
        Err(e) => first < lines.len() && lines[first] == "- Failed to list bookings: "@ + e@,
    }
}

/// How many lines an account takes.
pub open spec fn lines_taken(of: AccountBookings, several: bool) -> int {
    (if several { 1int } else { 0 }) + match of.bookings {
        Ok(list) => if list@.len() == 0 {
            1int
        } else {
            list@.len() as int
        },
        Err(_) => 1int,
    }
}

/// How many lines the accounts of a list take.
pub open spec fn all_lines_taken(list: Seq<AccountBookings>, several: bool) -> int
    decreases list.len(),
{
    if list.len() == 0 {
        0
    } else {
        all_lines_taken(list.drop_last(), several) + lines_taken(list.last(), several)
    }
}

/// The bookings of every account are shown, one account behind the other, with nothing else
/// between them; accounts are told apart by their labels exactly where there are several.
pub proof fn the_bookings_of_every_account_are_shown(
    list: Vec<AccountBookings>,
    r: Vec<String>,
    i: int,
)
    requires
        call_ensures(bookings_reply, (&list,), r),
        0 <= i < list@.len(),
    ensures
        r@.len() == all_lines_taken(list@, list@.len() > 1),
        shows_account(
            texts(r@),
            all_lines_taken(list@.take(i), list@.len() > 1),
            list@[i],
            list@.len() > 1,
        ),
{
    assert(texts(r@).len() == r@.len());
    lemma_accounts_shown(list@, list@.len() > 1, i);
}

proof fn lemma_account_shown(of: AccountBookings, several: bool, before: Seq<Seq<char>>)
    ensures
        of.lines(several).len() == lines_taken(of, several),
        shows_account(before + of.lines(several), before.len() as int, of, several),
{
    let lines = before + of.lines(several);
    let at = before.len() as int;
    let first = if several { at + 1 } else { at };
    if let Ok(list) = of.bookings {
        if list@.len() > 0 {
            assert forall|i: int| 0 <= i < list@.len() implies lists_booking(
                lines[first + i],
                #[trigger] list@[i],
            ) by {
                assert(lines[first + i] == booking_entry()(list@[i]));
                lemma_booking_entry(list@[i]);
            }
        }
    }
}

proof fn lemma_shown_in_front(
    lines: Seq<Seq<char>>,
    behind: Seq<Seq<char>>,
    at: int,
    of: AccountBookings,
    several: bool,
)
    requires
        shows_account(lines, at, of, several),
    ensures
        shows_account(lines + behind, at, of, several),
{
    let first = if several { at + 1 } else { at };
    if let Ok(list) = of.bookings {
        if list@.len() > 0 {
            assert forall|i: int| 0 <= i < list@.len() implies lists_booking(
                (lines + behind)[first + i],
                #[trigger] list@[i],
            ) by {
                assert((lines + behind)[first + i] == lines[first + i]);
            }
        }
    }
}

proof fn lemma_accounts_shown(list: Seq<AccountBookings>, several: bool, i: int)
    ensures
        bookings_lines(list, several).len() == all_lines_taken(list, several),
        0 <= i < list.len() ==> shows_account(
            bookings_lines(list, several),
            all_lines_taken(list.take(i), several),
            list[i],
            several,
        ),
    decreases list.len(),
{
    if list.len() > 0 {
        let front = list.drop_last();
        lemma_accounts_shown(front, several, i);
        let before = bookings_lines(front, several);
        lemma_account_shown(list.last(), several, before);
        if i == list.len() - 1 {
            assert(list.take(i) =~= front);
        } else if 0 <= i < front.len() {
            assert(front.take(i) =~= list.take(i));
            lemma_shown_in_front(
                before,
                list.last().lines(several),
                all_lines_taken(list.take(i), several),
                list[i],
                several,
            );
        }
    }
}

} // verus!
