//! What is offered while a command is being typed, and the values that the offers stand for.

use vstd::prelude::*;

use crate::message::{booking_text, format_booking, format_session, session_text};
use crate::session::{Booking, Session};
use crate::text::{
    contains, is_split_at_first, lowercase, occurs_at, occurs_in, or_text, split_once, text_or,
    to_lowercase,
};

verus! {

/// How many choices Discord shows at most.
pub const MAX_CHOICES: usize = 25;

/// An offered choice: what is shown, and what the command receives.
#[derive(Debug)]
pub struct Choice {
    pub name: String,
    pub value: String,
}

/// The names and values of a list of choices.
pub open spec fn choices(list: Seq<Choice>) -> Seq<(Seq<char>, Seq<char>)> {
    list.map_values(|c: Choice| (c.name@, c.value@))
}

/// The first `n` entries of a list, or all of a shorter one.
pub open spec fn at_most<T>(list: Seq<T>, n: nat) -> Seq<T> {
    if list.len() <= n {
        list
    } else {
        list.take(n as int)
    }
}

/// Whether a name contains what was typed, letter case aside. Nothing typed is contained in
/// every name.
pub open spec fn suits(name: Seq<char>, typed: Seq<char>) -> bool {
    lowercase(typed).len() == 0 || occurs_in(lowercase(name), lowercase(typed))
}

fn name_suits(name: &str, typed: &str) -> (r: bool)
    ensures
        r == suits(name@, typed@),
{
    let wanted = to_lowercase(typed);
    wanted.as_str().is_empty() || contains(to_lowercase(name).as_str(), wanted.as_str())
}

/// Whether a session's name contains what was typed.
pub open spec fn suiting_session(typed: Seq<char>) -> spec_fn(Session) -> bool {
    |s: Session| suits(text_or(s.name, ""@), typed)
}

/// The choice that stands for a session: it gives the session's id.
pub open spec fn session_choice() -> spec_fn(Session) -> (Seq<char>, Seq<char>) {
    |s: Session| (session_text(s), s.id@)
}

/// Offers the sessions whose name contains what was typed.
pub fn session_choices(sessions: Vec<Session>, typed: &str) -> (r: Vec<Choice>)
    ensures
        choices(r@) == at_most(
            sessions@.filter(suiting_session(typed@)),
            MAX_CHOICES as nat,
        ).map_values(session_choice()),
{
    let ghost all = sessions@;
    let ghost wanted = suiting_session(typed@);
    let mut out: Vec<Choice> = Vec::new();
    let mut i: usize = 0;
    proof {
        reveal(Seq::filter);
        assert(choices(out@) =~= at_most(
            all.take(0).filter(wanted),
            MAX_CHOICES as nat,
        ).map_values(session_choice()));
    }
    while i < sessions.len()
        invariant
            i <= sessions.len(),
            all == sessions@,
            wanted == suiting_session(typed@),
            choices(out@) == at_most(
                all.take(i as int).filter(wanted),
                MAX_CHOICES as nat,
            ).map_values(session_choice()),
        decreases sessions.len() - i,
    {
        let s = &sessions[i];
        let ghost before = choices(out@);
        let ghost found = all.take(i as int).filter(wanted);
        proof {
            reveal(Seq::filter);
            assert(all.take(i + 1).drop_last() =~= all.take(i as int));
            assert(choices(out@).len() == out@.len());
        }
        if name_suits(or_text(&s.name, ""), typed) && out.len() < MAX_CHOICES {
            out.push(Choice { name: format_session(s), value: s.id.clone() });
            proof {
                let choice = (session_text(*s), s.id@);
                assert(choices(out@) =~= before.push(choice));
                assert(found.push(*s).map_values(session_choice()) =~= found.map_values(
                    session_choice(),
                ).push(choice));
            }
        } else {
            assert(at_most(all.take(i + 1).filter(wanted), MAX_CHOICES as nat) =~= at_most(
                found,
                MAX_CHOICES as nat,
            ));
        }
        i = i + 1;
    }
    assert(all.take(all.len() as int) =~= all);
    out
}

/// The name of a booking's session; empty where it has none.
pub open spec fn booked_name(b: Booking) -> Seq<char> {
    match b.first_session() {
        Some(s) => text_or(s.name, ""@),
        None => ""@,
    }
}

/// Whether the name of a booking's session contains what was typed.
pub open spec fn suiting_booking(typed: Seq<char>) -> spec_fn(Booking) -> bool {
    |b: Booking| suits(booked_name(b), typed)
}

/// The value that stands for a booking: its id and its session's.
pub open spec fn booking_value(id: Seq<char>, session_id: Seq<char>) -> Seq<char> {
    id + ":"@ + session_id
}

/// The choice that stands for a booking.
pub open spec fn booking_choice() -> spec_fn(Booking) -> (Seq<char>, Seq<char>) {
    |b: Booking| (booking_text(b), booking_value(b.id@, b.session_id@))
}

/// Offers the bookings whose session's name contains what was typed.
pub fn booking_choices(bookings: Vec<Booking>, typed: &str) -> (r: Vec<Choice>)
    ensures
        choices(r@) == at_most(
            bookings@.filter(suiting_booking(typed@)),
            MAX_CHOICES as nat,
        ).map_values(booking_choice()),
{
    let ghost all = bookings@;
    let ghost wanted = suiting_booking(typed@);
    let mut out: Vec<Choice> = Vec::new();
    let mut i: usize = 0;
    proof {
        reveal(Seq::filter);
        assert(choices(out@) =~= at_most(
            all.take(0).filter(wanted),
            MAX_CHOICES as nat,
        ).map_values(booking_choice()));
    }
    while i < bookings.len()
        invariant
            i <= bookings.len(),
            all == bookings@,
            wanted == suiting_booking(typed@),
            choices(out@) == at_most(
                all.take(i as int).filter(wanted),
                MAX_CHOICES as nat,
            ).map_values(booking_choice()),
        decreases bookings.len() - i,
    {
        let b = &bookings[i];
        let name = if b.session.is_empty() {
            ""
        } else {
            or_text(&b.session[0].name, "")
        };
        let ghost before = choices(out@);
        let ghost found = all.take(i as int).filter(wanted);
        proof {
            reveal(Seq::filter);
            assert(all.take(i + 1).drop_last() =~= all.take(i as int));
            assert(choices(out@).len() == out@.len());
        }
        if name_suits(name, typed) && out.len() < MAX_CHOICES {
            let mut value = b.id.clone();
            value.append(":");
            value.append(b.session_id.as_str());
            out.push(Choice { name: format_booking(b), value });
            proof {
                let choice = (booking_text(*b), booking_value(b.id@, b.session_id@));
                assert(choices(out@) =~= before.push(choice));
                assert(found.push(*b).map_values(booking_choice()) =~= found.map_values(
                    booking_choice(),
                ).push(choice));
            }
        } else {
            assert(at_most(all.take(i + 1).filter(wanted), MAX_CHOICES as nat) =~= at_most(
                found,
                MAX_CHOICES as nat,
            ));
        }
        i = i + 1;
    }
    assert(all.take(all.len() as int) =~= all);
    out
}

/// Whether a value stands for a booking and its session: the first colon parts the two ids.
pub open spec fn stands_for(value: Seq<char>, id: Seq<char>, session_id: Seq<char>) -> bool {
    is_split_at_first(value, ":"@, Some((id, session_id)))
}

/// The session id in a value that stands for a booking: what is behind its first colon.
pub open spec fn is_session_of(value: Seq<char>, session_id: Seq<char>) -> bool {
    exists|id: Seq<char>| #[trigger] stands_for(value, id, session_id)
}

/// Reads the session id out of a value that stands for a booking.
pub fn booking_session_id(value: &str) -> (r: Result<String, String>)
    ensures
        match r {
            Ok(id) => is_session_of(value@, id@),
            Err(message) => !occurs_in(value@, ":"@) && message@
                == "Invalid booking value \u{2014} use the autocomplete dropdown"@,
        },
{
    match split_once(value, ":") {
        Some((booking_id, id)) => {
            let session_id = id.to_owned();
            assert(stands_for(value@, booking_id@, session_id@));
            Ok(session_id)
        },
        None => Err("Invalid booking value \u{2014} use the autocomplete dropdown".to_owned()),
    }
}

/// The value that stands for a booking gives its session back, unless the booking's id holds a
/// colon itself.
pub proof fn booking_value_reads_back(id: Seq<char>, session_id: Seq<char>, read: Seq<char>)
    requires
        !id.contains(':'),
        is_session_of(booking_value(id, session_id), read),
    ensures
        read == session_id,
{
    reveal_strlit(":");
    let value = booking_value(id, session_id);
    let other = choose|other: Seq<char>| stands_for(value, other, read);
    assert(stands_for(value, other, read));
    assert(value == other + ":"@ + read);
    assert(value[id.len() as int] == ':');
    assert(value[other.len() as int] == ':');
    if other.len() < id.len() {
        assert(value[other.len() as int] == id[other.len() as int]);
    } else if id.len() < other.len() {
        assert(value.subrange(id.len() as int, id.len() as int + 1) =~= ":"@);
        assert(occurs_at(value, ":"@, id.len() as int));
    }
    assert(value.skip(id.len() as int + 1) =~= session_id);
    assert(value.skip(other.len() as int + 1) =~= read);
}

/// No more choices are offered than Discord shows, and each suits what was typed.
pub proof fn offered_sessions_suit(sessions: Seq<Session>, typed: Seq<char>)
    ensures
        ({
            let offered = at_most(
                sessions.filter(suiting_session(typed)),
                MAX_CHOICES as nat,
            );
            &&& offered.len() <= MAX_CHOICES
            &&& forall|i: int|
                0 <= i < offered.len() ==> sessions.contains(#[trigger] offered[i]) && suits(
                    text_or(offered[i].name, ""@),
                    typed,
                )
        }),
{
    let wanted = suiting_session(typed);
    let found = sessions.filter(wanted);
    let offered = at_most(found, MAX_CHOICES as nat);
    assert forall|i: int| 0 <= i < offered.len() implies sessions.contains(#[trigger] offered[i])
        && suits(text_or(offered[i].name, ""@), typed) by {
        assert(offered[i] == found[i]);
        sessions.lemma_filter_pred(wanted, i);
        sessions.lemma_filter_contains_rev(wanted, found[i]);
    }
}

/// No more bookings are offered than Discord shows, and each suits what was typed.
pub proof fn offered_bookings_suit(bookings: Seq<Booking>, typed: Seq<char>)
    ensures
        ({
            let offered = at_most(
                bookings.filter(suiting_booking(typed)),
                MAX_CHOICES as nat,
            );
            &&& offered.len() <= MAX_CHOICES
            &&& forall|i: int|
                0 <= i < offered.len() ==> bookings.contains(#[trigger] offered[i]) && suits(
                    booked_name(offered[i]),
                    typed,
                )
        }),
{
    let wanted = suiting_booking(typed);
    let found = bookings.filter(wanted);
    let offered = at_most(found, MAX_CHOICES as nat);
    assert forall|i: int| 0 <= i < offered.len() implies bookings.contains(#[trigger] offered[i])
        && suits(booked_name(offered[i]), typed) by {
        assert(offered[i] == found[i]);
        bookings.lemma_filter_pred(wanted, i);
        bookings.lemma_filter_contains_rev(wanted, found[i]);
    }
}

// ---------------------------------------------------------------------------
// Laws
// ---------------------------------------------------------------------------

/// The sessions offered are those whose name contains what was typed, letter case aside, in the
/// order of the listing: all of them, or the first 25. Each choice gives the session's id, and
/// shows its name, or its id where it has none, its day and its time.
pub proof fn sessions_are_offered_by_name(sessions: Vec<Session>, typed: &str, r: Vec<Choice>)
    requires
        call_ensures(session_choices, (sessions, typed), r),
    ensures
        ({
            let suiting = sessions@.filter(
                |s: Session|
                    lowercase(typed@).len() == 0 || occurs_in(
                        lowercase(
                            match s.name {
                                Some(name) => name@,
                                None => ""@,
                            },
                        ),
                        lowercase(typed@),
                    ),
            );
            &&& r@.len() == (if suiting.len() < 25 {
                suiting.len() as int
            } else {
                25
            })
            &&& forall|i: int|
                0 <= i < r@.len() ==> {
                    let s = suiting[i];
                    &&& (#[trigger] r@[i]).value@ == s.id@
                    &&& r@[i].name@ == (match s.name {
                        Some(name) => name@,
                        None => s.id@,
                    }) + " | "@ + crate::session::shown_day(s.date) + " | "@ + (match s.time {
                        Some(time) => time@,
                        None => "?"@,
                    })
                }
        }),
{
    let wanted = |s: Session|
        lowercase(typed@).len() == 0 || occurs_in(
            lowercase(
                match s.name {
                    Some(name) => name@,
                    None => ""@,
                },
            ),
            lowercase(typed@),
        );
    assert forall|s: Session| #[trigger] suiting_session(typed@)(s) == wanted(s) by {}
    assert(suiting_session(typed@) =~= wanted);
    let suiting = sessions@.filter(wanted);
    assert(choices(r@).len() == r@.len());
    assert forall|i: int| 0 <= i < r@.len() implies {
        let s = suiting[i];
        &&& (#[trigger] r@[i]).value@ == s.id@
        &&& r@[i].name@ == session_text(s)
    } by {
        assert(choices(r@)[i] == (r@[i].name@, r@[i].value@));
        assert(choices(r@)[i] == session_choice()(suiting[i]));
    }
}

/// The bookings offered are those the name of whose session contains what was typed, letter case
/// aside, in the order of the listing: all of them, or the first 25. Each choice gives the ids of
/// the booking and of its session, parted by a colon.
pub proof fn bookings_are_offered_by_name(bookings: Vec<Booking>, typed: &str, r: Vec<Choice>)
    requires
        call_ensures(booking_choices, (bookings, typed), r),
    ensures
        ({
            let suiting = bookings@.filter(
                |b: Booking|
                    lowercase(typed@).len() == 0 || occurs_in(
                        lowercase(
                            if b.session@.len() > 0 && b.session@[0].name is Some {
                                b.session@[0].name->0@
                            } else {
                                ""@
                            },
                        ),
                        lowercase(typed@),
                    ),
            );
            &&& r@.len() == (if suiting.len() < 25 {
                suiting.len() as int
            } else {
                25
            })
            &&& forall|i: int|
                0 <= i < r@.len() ==> {
                    let b = suiting[i];
                    &&& (#[trigger] r@[i]).value@ == b.id@ + ":"@ + b.session_id@
                    &&& crate::text::begins_with(
                        r@[i].name@,
                        (if b.session@.len() > 0 && b.session@[0].name is Some {
                            b.session@[0].name->0@
                        } else {
                            b.session_id@
                        }) + " | "@,
                    )
                }
        }),
{
    let wanted = |b: Booking|
        lowercase(typed@).len() == 0 || occurs_in(
            lowercase(
                if b.session@.len() > 0 && b.session@[0].name is Some {
                    b.session@[0].name->0@
                } else {
                    ""@
                },
            ),
            lowercase(typed@),
        );
    assert forall|b: Booking| #[trigger] suiting_booking(typed@)(b) == wanted(b) by {}
    assert(suiting_booking(typed@) =~= wanted);
    let suiting = bookings@.filter(wanted);
    assert(choices(r@).len() == r@.len());
    assert forall|i: int| 0 <= i < r@.len() implies {
        let b = suiting[i];
        &&& (#[trigger] r@[i]).value@ == b.id@ + ":"@ + b.session_id@
        &&& crate::text::begins_with(
            r@[i].name@,
            (if b.session@.len() > 0 && b.session@[0].name is Some {
                b.session@[0].name->0@
            } else {
                b.session_id@
            }) + " | "@,
        )
    } by {
        let b = suiting[i];
        assert(choices(r@)[i] == (r@[i].name@, r@[i].value@));
        assert(choices(r@)[i] == booking_choice()(suiting[i]));
        let head = b.shown_name() + " | "@;
        assert(r@[i].name@.subrange(0, head.len() as int) =~= head);
    }
}

/// What a choice of a booking gives is read back as the booking's session, as long as the
/// booking's id has no colon; and only a value without a colon is refused.
pub proof fn a_chosen_booking_gives_its_session(
    value: &str,
    id: Seq<char>,
    session_id: Seq<char>,
    r: Result<String, String>,
)
    requires
        call_ensures(booking_session_id, (value,), r),
    ensures
        value@ == id + ":"@ + session_id && !id.contains(':') ==> r is Ok && r->Ok_0@
            == session_id,
        r is Err <==> !value@.contains(':'),
{
    reveal_strlit(":");
    if value@ == id + ":"@ + session_id && !id.contains(':') {
        let at = id.len() as int;
        assert(value@.subrange(at, at + 1) =~= ":"@);
        assert(occurs_at(value@, ":"@, at));
        assert(r is Ok);
        booking_value_reads_back(id, session_id, r->Ok_0@);
    }
    if r is Ok {
        let other = choose|other: Seq<char>| #[trigger] stands_for(value@, other, r->Ok_0@);
        assert(value@[other.len() as int] == ':');
        assert(value@.contains(':'));
    }
    if value@.contains(':') {
        let i = choose|i: int| 0 <= i < value@.len() && value@[i] == ':';
        assert(value@.subrange(i, i + 1) =~= ":"@);
        assert(occurs_at(value@, ":"@, i));
    }
}

} // verus!
