//! What is offered from the listings of sessions and bookings.

use vstd::prelude::*;

use crate::order::{is_stable_sort, sort_keyed, sorts_by, Key, SortKey};
use crate::session::{Booking, Session};
use crate::text::same_text;

verus! {

/// Whether a list of bookings holds one of a session.
pub open spec fn is_booked(bookings: Seq<Booking>, session_id: Seq<char>) -> bool {
    exists|i: int| 0 <= i < bookings.len() && (#[trigger] bookings[i]).session_id@ == session_id
}

fn has_booking(bookings: &Vec<Booking>, session_id: &str) -> (r: bool)
    ensures
        r == is_booked(bookings@, session_id@),
{
    let mut i: usize = 0;
    while i < bookings.len()
        invariant
            i <= bookings.len(),
            forall|j: int| 0 <= j < i ==> (#[trigger] bookings@[j]).session_id@ != session_id@,
        decreases bookings.len() - i,
    {
        if same_text(bookings[i].session_id.as_str(), session_id) {
            return true;
        }
        i = i + 1;
    }
    false
}

/// The sessions that are not booked.
pub open spec fn unbooked(bookings: Seq<Booking>) -> spec_fn(Session) -> bool {
    |s: Session| !is_booked(bookings, s.id@)
}

/// Sessions available to book: the full listing minus the ones already booked, so a picker
/// never offers a duplicate. The order stays.
pub fn bookable_sessions(sessions: Vec<Session>, bookings: &Vec<Booking>) -> (r: Vec<Session>)
    ensures
        r@ == sessions@.filter(unbooked(bookings@)),
{
    let ghost all = sessions@;
    let mut out: Vec<Session> = Vec::new();
    proof {
        reveal(Seq::filter);
    }
    for session in it: sessions
        invariant
            it.seq() == all,
            out@ == all.take(it.index() as int).filter(unbooked(bookings@)),
    {
        proof {
            reveal(Seq::filter);
            let n = it.index() as int;
            assert(all.take(n + 1).drop_last() =~= all.take(n));
        }
        if !has_booking(bookings, session.id.as_str()) {
            out.push(session);
        }
    }
    assert(all.take(all.len() as int) =~= all);
    out
}

/// No session that is offered for booking is booked already, and every session that is not
/// booked is offered.
pub proof fn offered_sessions_are_the_unbooked_ones(
    sessions: Seq<Session>,
    bookings: Seq<Booking>,
    session: Session,
)
    ensures
        sessions.filter(unbooked(bookings)).contains(session) <==> sessions.contains(session)
            && !is_booked(bookings, session.id@),
{
    let offered = sessions.filter(unbooked(bookings));
    broadcast use vstd::seq_lib::group_filter_ensures;

    if offered.contains(session) {
        let i = choose|i: int| 0 <= i < offered.len() && offered[i] == session;
        sessions.lemma_filter_pred(unbooked(bookings), i);
        sessions.lemma_filter_contains_rev(unbooked(bookings), session);
    }
    if sessions.contains(session) && !is_booked(bookings, session.id@) {
        let i = choose|i: int| 0 <= i < sessions.len() && sessions[i] == session;
        sessions.lemma_filter_contains(unbooked(bookings), i);
    }
}

/// Sessions by whether they are booked: the booked ones first.
pub open spec fn by_booked(bookings: Seq<Booking>) -> spec_fn(Session) -> Key {
    |s: Session|
        Key {
            rank: if is_booked(bookings, s.id@) {
                0
            } else {
                1
            },
            first: Seq::empty(),
            second: Seq::empty(),
        }
}

/// Puts booked sessions first; otherwise the order stays.
pub fn sessions_booked_first(sessions: Vec<Session>, bookings: &Vec<Booking>) -> (r: Vec<Session>)
    ensures
        is_stable_sort(sessions@, by_booked(bookings@), r@),
{
    let ghost all = sessions@;
    let mut entries: Vec<(SortKey, Session)> = Vec::new();
    for session in it: sessions
        invariant
            it.seq() == all,
            entries@.len() == it.index(),
            forall|i: int|
                0 <= i < entries@.len() ==> (#[trigger] entries@[i]).1 == all[i]
                    && entries@[i].0@ == by_booked(bookings@)(all[i]),
    {
        let rank: u8 = if has_booking(bookings, session.id.as_str()) {
            0
        } else {
            1
        };
        let key = SortKey { rank, first: String::new(), second: String::new() };
        entries.push((key, session));
    }
    assert(entries@.map_values(|e: (SortKey, Session)| e.1) =~= all);
    sort_keyed(entries, Ghost(by_booked(bookings@)))
}

/// With booked sessions first, a session that is not booked is followed by none that is, and
/// two sessions that are alike in this keep their order.
pub proof fn booked_sessions_come_first(
    input: Seq<Session>,
    bookings: Seq<Booking>,
    output: Seq<Session>,
    from: Seq<int>,
    i: int,
    j: int,
)
    requires
        sorts_by(input, by_booked(bookings), output, from),
        0 <= i < j < output.len(),
    ensures
        is_booked(bookings, output[j].id@) ==> is_booked(bookings, output[i].id@),
        is_booked(bookings, output[i].id@) == is_booked(bookings, output[j].id@) ==> from[i]
            < from[j],
{
    assert(from[i] != from[j]);
    let a = by_booked(bookings)(output[i]);
    let b = by_booked(bookings)(output[j]);
    crate::text::text_order_is_total(a.first, b.first, a.first);
}

/// The sessions other than a given one.
pub open spec fn other_than(id: Seq<char>) -> spec_fn(Session) -> bool {
    |s: Session| s.id@ != id
}

/// The sessions of a listing other than the one with id `id`.
pub fn other_sessions(sessions: Vec<Session>, id: &str) -> (r: Vec<Session>)
    ensures
        r@ == sessions@.filter(other_than(id@)),
{
    let ghost all = sessions@;
    let mut out: Vec<Session> = Vec::new();
    proof {
        reveal(Seq::filter);
    }
    for session in it: sessions
        invariant
            it.seq() == all,
            out@ == all.take(it.index() as int).filter(other_than(id@)),
    {
        proof {
            reveal(Seq::filter);
            let n = it.index() as int;
            assert(all.take(n + 1).drop_last() =~= all.take(n));
        }
        if !same_text(session.id.as_str(), id) {
            out.push(session);
        }
    }
    assert(all.take(all.len() as int) =~= all);
    out
}

/// The first booking of a session in a list.
pub open spec fn first_booking(bookings: Seq<Booking>, session_id: Seq<char>) -> Option<Booking>
    decreases bookings.len(),
{
    if bookings.len() == 0 {
        None
    } else if bookings[0].session_id@ == session_id {
        Some(bookings[0])
    } else {
        first_booking(bookings.drop_first(), session_id)
    }
}

/// Finds the booking of a session among an account's bookings, if there is one.
pub fn booking_for_session(bookings: Vec<Booking>, session_id: &str) -> (r: Option<Booking>)
    ensures
        r == first_booking(bookings@, session_id@),
{
    let ghost all = bookings@;
    assert(all.skip(0) =~= all);
    for booking in it: bookings
        invariant
            it.seq() == all,
            first_booking(all, session_id@) == first_booking(
                all.skip(it.index() as int),
                session_id@,
            ),
    {
        proof {
            let n = it.index() as int;
            assert(all.skip(n)[0] == all[n]);
            assert(all.skip(n).drop_first() =~= all.skip(n + 1));
        }
        if same_text(booking.session_id.as_str(), session_id) {
            return Some(booking);
        }
    }
    None
}

/// A booking of a session is found exactly where there is one, and it is one of that session.
pub proof fn found_booking_is_of_the_session(bookings: Seq<Booking>, session_id: Seq<char>)
    ensures
        first_booking(bookings, session_id) is Some <==> is_booked(bookings, session_id),
        first_booking(bookings, session_id) matches Some(b) ==> bookings.contains(b)
            && b.session_id@ == session_id,
    decreases bookings.len(),
{
    if bookings.len() > 0 {
        let rest = bookings.drop_first();
        found_booking_is_of_the_session(rest, session_id);
        if bookings[0].session_id@ == session_id {
            assert(bookings.contains(bookings[0]));
        } else {
            if is_booked(bookings, session_id) {
                let i = choose|i: int|
                    0 <= i < bookings.len() && (#[trigger] bookings[i]).session_id@ == session_id;
                assert(rest[i - 1] == bookings[i]);
            }
            if is_booked(rest, session_id) {
                let i = choose|i: int|
                    0 <= i < rest.len() && (#[trigger] rest[i]).session_id@ == session_id;
                assert(bookings[i + 1] == rest[i]);
                let b = first_booking(rest, session_id)->0;
                let k = choose|k: int| 0 <= k < rest.len() && rest[k] == b;
                assert(bookings[k + 1] == b);
            }
        }
    }
}

/// Turns a chronological list of bookings round: the most recent first.
pub fn most_recent_first(bookings: Vec<Booking>) -> (r: Vec<Booking>)
    ensures
        r@ == bookings@.reverse(),
{
    let mut rest = bookings;
    let ghost all = bookings@;
    let mut out: Vec<Booking> = Vec::new();
    while !rest.is_empty()
        invariant
            rest@.len() + out@.len() == all.len(),
            rest@ == all.take(rest@.len() as int),
            forall|i: int| 0 <= i < out@.len() ==> #[trigger] out@[i] == all[all.len() - 1 - i],
        decreases rest@.len(),
    {
        if let Some(booking) = rest.pop() {
            out.push(booking);
        }
        assert(rest@ =~= all.take(rest@.len() as int));
    }
    assert(out@ =~= all.reverse());
    out
}

// ---------------------------------------------------------------------------
// Laws
// ---------------------------------------------------------------------------

/// What is offered for booking is the listing without the sessions of which a booking carries
/// the id: none that is booked, all that are not, in the order of the listing.
pub proof fn booked_sessions_are_not_offered(
    sessions: Vec<Session>,
    bookings: Vec<Booking>,
    r: Vec<Session>,
)
    requires
        call_ensures(bookable_sessions, (sessions, &bookings), r),
    ensures
        r@ == sessions@.filter(
            |s: Session|
                forall|i: int|
                    0 <= i < bookings@.len() ==> (#[trigger] bookings@[i]).session_id@ != s.id@,
        ),
        forall|s: Session| #[trigger]
            r@.contains(s) <==> sessions@.contains(s) && forall|i: int|
                0 <= i < bookings@.len() ==> (#[trigger] bookings@[i]).session_id@ != s.id@,
{
    let free = |s: Session|
        forall|i: int|
            0 <= i < bookings@.len() ==> (#[trigger] bookings@[i]).session_id@ != s.id@;
    assert forall|s: Session| #[trigger] unbooked(bookings@)(s) == free(s) by {}
    assert(unbooked(bookings@) =~= free);
    assert forall|s: Session| #[trigger] r@.contains(s) <==> sessions@.contains(s) && free(s) by {
        offered_sessions_are_the_unbooked_ones(sessions@, bookings@, s);
    }
}

/// For a comparison every session is offered, those first of which a booking carries the id; the
/// session picked first is then left out, and no other.
pub proof fn sessions_to_compare_are_offered(
    sessions: Vec<Session>,
    bookings: Vec<Booking>,
    sorted: Vec<Session>,
    id: &str,
    others: Vec<Session>,
)
    requires
        call_ensures(sessions_booked_first, (sessions, &bookings), sorted),
        call_ensures(other_sessions, (sorted, id), others),
    ensures
        sorted@.len() == sessions@.len(),
        forall|s: Session| #[trigger] sorted@.contains(s) <==> sessions@.contains(s),
        forall|i: int, j: int, k: int|
            0 <= i < j < sorted@.len() && 0 <= k < bookings@.len()
                && #[trigger] bookings@[k].session_id@ == (#[trigger] sorted@[j]).id@ ==> exists|
                m: int,
            |
                0 <= m < bookings@.len() && bookings@[m].session_id@ == (
                #[trigger] sorted@[i]).id@,
        forall|s: Session| #[trigger]
            others@.contains(s) <==> sorted@.contains(s) && s.id@ != id@,
{
    assert forall|s: Session| #[trigger] sorted@.contains(s) <==> sessions@.contains(s) by {
        crate::session::ordering_keeps_the_entries(
            sessions@,
            by_booked(bookings@),
            sorted@,
            s,
        );
    }
    let from = choose|from: Seq<int>| #[trigger]
        sorts_by(sessions@, by_booked(bookings@), sorted@, from);
    assert forall|i: int, j: int, k: int|
        0 <= i < j < sorted@.len() && 0 <= k < bookings@.len()
            && #[trigger] bookings@[k].session_id@ == (#[trigger] sorted@[j]).id@ implies exists|
        m: int,
    |
        0 <= m < bookings@.len() && bookings@[m].session_id@ == (#[trigger] sorted@[i]).id@ by {
        booked_sessions_come_first(sessions@, bookings@, sorted@, from, i, j);
        assert(is_booked(bookings@, sorted@[j].id@));
        let m = choose|m: int|
            0 <= m < bookings@.len() && (#[trigger] bookings@[m]).session_id@ == sorted@[i].id@;
        assert(bookings@[m].session_id@ == sorted@[i].id@);
    }
    assert forall|s: Session| #[trigger] others@.contains(s) <==> sorted@.contains(s) && s.id@
        != id@ by {
        let wanted = other_than(id@);
        if others@.contains(s) {
            let i = choose|i: int| 0 <= i < others@.len() && others@[i] == s;
            sorted@.lemma_filter_pred(wanted, i);
            sorted@.lemma_filter_contains_rev(wanted, s);
        }
        if sorted@.contains(s) && s.id@ != id@ {
            let i = choose|i: int| 0 <= i < sorted@.len() && sorted@[i] == s;
            sorted@.lemma_filter_contains(wanted, i);
        }
    }
}

/// The booking of a session is found exactly where one carries the session's id, and it is the
/// first that does.
pub proof fn the_first_booking_of_the_session_is_found(
    bookings: Vec<Booking>,
    session_id: &str,
    r: Option<Booking>,
)
    requires
        call_ensures(booking_for_session, (bookings, session_id), r),
    ensures
        match r {
            Some(b) => exists|i: int|
                0 <= i < bookings@.len() && #[trigger] bookings@[i] == b && b.session_id@
                    == session_id@ && forall|j: int|
                    0 <= j < i ==> (#[trigger] bookings@[j]).session_id@ != session_id@,
            None => forall|i: int|
                0 <= i < bookings@.len() ==> (#[trigger] bookings@[i]).session_id@
                    != session_id@,
        },
{
    lemma_first_booking(bookings@, session_id@);
}

pub(crate) proof fn lemma_first_booking(bookings: Seq<Booking>, session_id: Seq<char>)
    ensures
        match first_booking(bookings, session_id) {
            Some(b) => exists|i: int|
                0 <= i < bookings.len() && #[trigger] bookings[i] == b && b.session_id@
                    == session_id && forall|j: int|
                    0 <= j < i ==> (#[trigger] bookings[j]).session_id@ != session_id,
            None => forall|i: int|
                0 <= i < bookings.len() ==> (#[trigger] bookings[i]).session_id@ != session_id,
        },
    decreases bookings.len(),
{
    if bookings.len() > 0 {
        if bookings[0].session_id@ != session_id {
            let rest = bookings.drop_first();
            lemma_first_booking(rest, session_id);
            match first_booking(bookings, session_id) {
                Some(b) => {
                    let i = choose|i: int|
                        0 <= i < rest.len() && #[trigger] rest[i] == b && b.session_id@
                            == session_id && forall|j: int|
                            0 <= j < i ==> (#[trigger] rest[j]).session_id@ != session_id;
                    assert(bookings[i + 1] == b);
                    assert forall|j: int| 0 <= j < i + 1 implies (
                    #[trigger] bookings[j]).session_id@ != session_id by {
                        if j > 0 {
                            assert(bookings[j] == rest[j - 1]);
                        }
                    }
                },
                None => {
                    assert forall|j: int| 0 <= j < bookings.len() implies (
                    #[trigger] bookings[j]).session_id@ != session_id by {
                        if j > 0 {
                            assert(bookings[j] == rest[j - 1]);
                        }
                    }
                },
            }
        } else {
            assert(bookings[0] == bookings[0]);
        }
    }
}

/// Turning a list round twice gives it back, and the last booking comes first.
pub proof fn the_most_recent_comes_first(
    bookings: Vec<Booking>,
    r: Vec<Booking>,
    again: Vec<Booking>,
)
    requires
        call_ensures(most_recent_first, (bookings,), r),
        call_ensures(most_recent_first, (r,), again),
    ensures
        again@ == bookings@,
        r@.len() == bookings@.len(),
        forall|i: int|
            0 <= i < r@.len() ==> #[trigger] r@[i] == bookings@[bookings@.len() - 1 - i],
{
    assert(again@ =~= bookings@);
}

/// A session is booked exactly where a booking carries its id.
pub proof fn a_session_is_booked_by_its_id(bookings: Seq<Booking>, s: Session)
    ensures
        is_booked(bookings, s.id@) <==> exists|i: int|
            0 <= i < bookings.len() && #[trigger] bookings[i].session_id@ == s.id@,
{
    if is_booked(bookings, s.id@) {
        let i = choose|i: int|
            0 <= i < bookings.len() && (#[trigger] bookings[i]).session_id@ == s.id@;
        assert(bookings[i].session_id@ == s.id@);
    }
}

} // verus!
