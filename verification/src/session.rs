//! Sessions and bookings: their data, their one-line renderings, their order.

use vstd::prelude::*;

use crate::number::decimal_text;
use crate::order::{is_stable_sort, sort_keyed, Key, SortKey};
use crate::text::{leading_bytes, or_text};

verus! {

// ---------------------------------------------------------------------------
// Data
// ---------------------------------------------------------------------------

/// A session of the club's listing.
#[derive(Debug)]
pub struct Session {
    pub id: String,
    pub name: Option<String>,
    /// The start instant, as an ISO timestamp.
    pub date: Option<String>,
    /// The start time of day, zero-padded (`19H30`).
    pub time: Option<String>,
    pub yes_participants: Vec<String>,
    pub total_capacity: Option<u32>,
}

/// A person attending a session.
#[derive(Debug)]
pub struct SessionAttendee {
    pub full_name: Option<String>,
    pub deleted: bool,
}

/// The session of a booking. The bookings listing always leaves the participant ids empty; the
/// participants come through `attendees` instead.
#[derive(Debug)]
pub struct BookingSession {
    pub name: Option<String>,
    pub date: Option<String>,
    pub time: Option<String>,
    pub attendees: Vec<SessionAttendee>,
    pub total_capacity: Option<u32>,
}

/// A booking of a session.
#[derive(Debug)]
pub struct Booking {
    pub id: String,
    pub session_id: String,
    pub session: Vec<BookingSession>,
}

/// Where a session takes place.
#[derive(Debug)]
pub struct SessionPlace {
    pub name: Option<String>,
    pub address: Option<String>,
    pub zip_code: Option<String>,
    pub city: Option<String>,
}

/// A coach of a session.
#[derive(Debug)]
pub struct SessionCoach {
    pub full_name: Option<String>,
}

/// A price: the bits of a double-precision number, and its rendering.
#[derive(Debug)]
pub struct Price {
    pub bits: u64,
    pub text: String,
}

/// The full detail of a session.
#[derive(Debug)]
pub struct SessionDetail {
    pub id: String,
    pub name: Option<String>,
    pub date: Option<String>,
    pub time: Option<String>,
    pub end_time: Option<String>,
    pub place: Option<SessionPlace>,
    pub total_capacity: Option<u32>,
    pub price: Option<Price>,
    pub description: Option<String>,
    pub info: Option<String>,
    pub level: Option<String>,
    pub coachs: Option<Vec<SessionCoach>>,
    pub yes_participants: Vec<String>,
    pub attendees: Vec<SessionAttendee>,
}

// ---------------------------------------------------------------------------
// Fields as they are shown
// ---------------------------------------------------------------------------

/// The day of a timestamp, its first ten bytes; `?` when there is no such day.
pub open spec fn shown_day(date: Option<String>) -> Seq<char> {
    match date {
        Some(d) => match crate::text::byte_prefix(d@, 10) {
            Some(day) => day,
            None => "?"@,
        },
        None => "?"@,
    }
}

/// The day of a timestamp, or `?`.
pub fn show_day(date: &Option<String>) -> (r: &str)
    ensures
        r@ == shown_day(*date),
{
    match date {
        Some(d) => match leading_bytes(d.as_str(), 10) {
            Some(day) => day,
            None => "?",
        },
        None => "?",
    }
}

/// `taken` of `capacity` places, or only `taken` where the capacity is unknown.
pub open spec fn shown_taken(taken: nat, capacity: Option<u32>) -> Seq<char> {
    match capacity {
        Some(c) => crate::number::decimal(taken) + "/"@ + crate::number::decimal(c as nat)
            + " booked"@,
        None => crate::number::decimal(taken) + " booked"@,
    }
}

fn show_taken(taken: usize, capacity: Option<u32>) -> (r: String)
    ensures
        r@ == shown_taken(taken as nat, capacity),
{
    let mut out = decimal_text(taken as u64);
    if let Some(c) = capacity {
        out.append("/");
        out.append(decimal_text(c as u64).as_str());
    }
    out.append(" booked");
    out
}

/// Four columns separated by ` | `.
pub open spec fn columns(
    a: Seq<char>,
    b: Seq<char>,
    c: Seq<char>,
    d: Seq<char>,
) -> Seq<char> {
    a + " | "@ + b + " | "@ + c + " | "@ + d
}

fn row(a: &str, b: &str, c: &str, d: &str) -> (r: String)
    ensures
        r@ == columns(a@, b@, c@, d@),
{
    let mut out = a.to_owned();
    out.append(" | ");
    out.append(b);
    out.append(" | ");
    out.append(c);
    out.append(" | ");
    out.append(d);
    out
}

// ---------------------------------------------------------------------------
// Sessions
// ---------------------------------------------------------------------------

/// Chronological sort key of a start date and time. A date is an ISO timestamp and a time a
/// zero-padded `19H30`, so both order correctly as plain text. An entry without a date comes
/// last.
pub open spec fn start_key(date: Option<String>, time: Option<String>) -> Key {
    Key {
        rank: if date is None {
            1
        } else {
            0
        },
        first: crate::text::text_or(date, Seq::empty()),
        second: crate::text::text_or(time, Seq::empty()),
    }
}

impl Session {
    /// The chronological sort key.
    pub open spec fn key(&self) -> Key {
        start_key(self.date, self.time)
    }

    /// Who takes part: how many of how many, `?` where neither is known.
    pub open spec fn shown_participants(&self) -> Seq<char> {
        if self.total_capacity is None && self.yes_participants@.len() == 0 {
            "?"@
        } else {
            shown_taken(self.yes_participants@.len(), self.total_capacity)
        }
    }

    /// The one-line rendering: name, day, time, participants.
    pub open spec fn shown(&self) -> Seq<char> {
        columns(
            crate::text::text_or(self.name, self.id@),
            shown_day(self.date),
            crate::text::text_or(self.time, "?"@),
            self.shown_participants(),
        )
    }

    /// Whether nothing but its id is known of the session.
    pub open spec fn is_only(self, id: String) -> bool {
        &&& self.id == id
        &&& self.name is None
        &&& self.date is None
        &&& self.time is None
        &&& self.yes_participants@.len() == 0
        &&& self.total_capacity is None
    }

    /// A minimal `Session` carrying only its id, for booking by id without having fetched the
    /// full listing.
    pub fn from_id(id: String) -> (r: Self)
        ensures
            r.is_only(id),
    {
        Session {
            id,
            name: None,
            date: None,
            time: None,
            yes_participants: Vec::new(),
            total_capacity: None,
        }
    }

    /// Renders the session in one line.
    pub fn to_text(&self) -> (r: String)
        ensures
            r@ == self.shown(),
    {
        let participants = if self.total_capacity.is_none() && self.yes_participants.is_empty() {
            "?".to_owned()
        } else {
            show_taken(self.yes_participants.len(), self.total_capacity)
        };
        row(
            or_text(&self.name, self.id.as_str()),
            show_day(&self.date),
            or_text(&self.time, "?"),
            participants.as_str(),
        )
    }

    /// Chronological ordering key: whether the date is missing, the date, the time.
    pub fn sort_key(&self) -> (r: (bool, &str, &str))
        ensures
            r.0 == (self.date is None),
            r.1@ == self.key().first,
            r.2@ == self.key().second,
    {
        proof {
            reveal_strlit("");
            assert(""@ =~= Seq::empty());
        }
        (self.date.is_none(), or_text(&self.date, ""), or_text(&self.time, ""))
    }
}

impl BookingSession {
    /// The chronological sort key.
    pub open spec fn key(&self) -> Key {
        start_key(self.date, self.time)
    }

    /// Number of active (non-deleted) participants of this booking's session.
    pub fn participant_count(&self) -> (r: usize)
        ensures
            r == active_count(self.attendees@),
    {
        let mut count: usize = 0;
        let mut i: usize = 0;
        assert(self.attendees@.take(0) =~= Seq::empty());
        while i < self.attendees.len()
            invariant
                i <= self.attendees.len(),
                count <= i,
                count == active_count(self.attendees@.take(i as int)),
            decreases self.attendees.len() - i,
        {
            assert(self.attendees@.take(i + 1).drop_last() =~= self.attendees@.take(i as int));
            if !self.attendees[i].deleted {
                count = count + 1;
            }
            i = i + 1;
        }
        assert(self.attendees@.take(self.attendees@.len() as int) =~= self.attendees@);
        count
    }

    /// See [`Session::sort_key`].
    pub fn sort_key(&self) -> (r: (bool, &str, &str))
        ensures
            r.0 == (self.date is None),
            r.1@ == self.key().first,
            r.2@ == self.key().second,
    {
        proof {
            reveal_strlit("");
            assert(""@ =~= Seq::empty());
        }
        (self.date.is_none(), or_text(&self.date, ""), or_text(&self.time, ""))
    }
}

/// How many attendees of a list are not deleted.
pub open spec fn active_count(attendees: Seq<SessionAttendee>) -> nat
    decreases attendees.len(),
{
    if attendees.len() == 0 {
        0
    } else {
        active_count(attendees.drop_last()) + if attendees.last().deleted {
            0nat
        } else {
            1nat
        }
    }
}

impl Booking {
    /// The session of the booking, where the listing gave one.
    pub open spec fn first_session(&self) -> Option<BookingSession> {
        if self.session@.len() == 0 {
            None
        } else {
            Some(self.session@[0])
        }
    }

    /// The name of the booked session, or its id.
    pub open spec fn shown_name(&self) -> Seq<char> {
        match self.first_session() {
            Some(s) => crate::text::text_or(s.name, self.session_id@),
            None => self.session_id@,
        }
    }

    /// The day of the booked session.
    pub open spec fn shown_day(&self) -> Seq<char> {
        match self.first_session() {
            Some(s) => shown_day(s.date),
            None => "?"@,
        }
    }

    /// The time of the booked session.
    pub open spec fn shown_time(&self) -> Seq<char> {
        match self.first_session() {
            Some(s) => crate::text::text_or(s.time, "?"@),
            None => "?"@,
        }
    }

    /// Who takes part in the booked session; deleted attendees do not count.
    pub open spec fn shown_participants(&self) -> Seq<char> {
        match self.first_session() {
            Some(s) => shown_taken(active_count(s.attendees@), s.total_capacity),
            None => "?"@,
        }
    }

    /// The one-line rendering: name, day, time, participants.
    pub open spec fn shown(&self) -> Seq<char> {
        columns(
            self.shown_name(),
            self.shown_day(),
            self.shown_time(),
            self.shown_participants(),
        )
    }

    /// The chronological sort key. A booking without a date comes behind all that have one: one
    /// whose session has none, and last one without a session.
    pub open spec fn key(&self) -> Key {
        match self.first_session() {
            Some(s) => s.key(),
            None => Key { rank: 2, first: Seq::empty(), second: Seq::empty() },
        }
    }

    /// Whether the booked session has a date.
    pub open spec fn is_dated(&self) -> bool {
        self.first_session() matches Some(s) && s.date is Some
    }

    /// The name of the booked session, or its id.
    pub fn show_name(&self) -> (r: &str)
        ensures
            r@ == self.shown_name(),
    {
        if self.session.is_empty() {
            self.session_id.as_str()
        } else {
            or_text(&self.session[0].name, self.session_id.as_str())
        }
    }

    /// The day of the booked session, or `?`.
    pub fn show_day(&self) -> (r: &str)
        ensures
            r@ == self.shown_day(),
    {
        if self.session.is_empty() {
            "?"
        } else {
            show_day(&self.session[0].date)
        }
    }

    /// The time of the booked session, or `?`.
    pub fn show_time(&self) -> (r: &str)
        ensures
            r@ == self.shown_time(),
    {
        if self.session.is_empty() {
            "?"
        } else {
            or_text(&self.session[0].time, "?")
        }
    }

    /// Renders the booking in one line.
    pub fn to_text(&self) -> (r: String)
        ensures
            r@ == self.shown(),
    {
        let participants = if self.session.is_empty() {
            "?".to_owned()
        } else {
            show_taken(self.session[0].participant_count(), self.session[0].total_capacity)
        };
        row(self.show_name(), self.show_day(), self.show_time(), participants.as_str())
    }
}

/// A deleted attendee does not change how a booking is shown.
pub proof fn deleted_attendees_are_not_counted(
    front: Seq<SessionAttendee>,
    attendee: SessionAttendee,
    behind: Seq<SessionAttendee>,
)
    requires
        attendee.deleted,
    ensures
        active_count(front.push(attendee) + behind) == active_count(front + behind),
    decreases behind.len(),
{
    if behind.len() == 0 {
        assert(front.push(attendee) + behind =~= front.push(attendee));
        assert(front + behind =~= front);
        assert(front.push(attendee).drop_last() =~= front);
    } else {
        deleted_attendees_are_not_counted(front, attendee, behind.drop_last());
        assert((front.push(attendee) + behind).drop_last() =~= front.push(attendee)
            + behind.drop_last());
        assert((front + behind).drop_last() =~= front + behind.drop_last());
    }
}

// ---------------------------------------------------------------------------
// Order
// ---------------------------------------------------------------------------

/// Sessions by start.
pub open spec fn by_start() -> spec_fn(Session) -> Key {
    |s: Session| s.key()
}

/// Bookings by start.
pub open spec fn bookings_by_start() -> spec_fn(Booking) -> Key {
    |b: Booking| b.key()
}

/// The key of a date alone; an entry without a date comes first.
pub open spec fn date_key(date: Option<String>) -> Key {
    Key {
        rank: if date is None {
            0
        } else {
            1
        },
        first: crate::text::text_or(date, Seq::empty()),
        second: Seq::empty(),
    }
}

/// Sessions by date alone.
pub open spec fn by_date() -> spec_fn(Session) -> Key {
    |s: Session| date_key(s.date)
}

fn keyed(rank: u8, first: &str, second: &str) -> (r: SortKey)
    ensures
        r@ == (Key { rank: rank as int, first: first@, second: second@ }),
{
    SortKey { rank, first: first.to_owned(), second: second.to_owned() }
}

/// Puts sessions in chronological order. Sessions without a date come last; sessions that
/// start together keep their order.
pub fn sort_sessions(sessions: Vec<Session>) -> (r: Vec<Session>)
    ensures
        is_stable_sort(sessions@, by_start(), r@),
{
    let ghost all = sessions@;
    let mut entries: Vec<(SortKey, Session)> = Vec::new();
    for session in it: sessions
        invariant
            it.seq() == all,
            entries@.len() == it.index(),
            forall|i: int|
                0 <= i < entries@.len() ==> (#[trigger] entries@[i]).1 == all[i]
                    && entries@[i].0@ == by_start()(all[i]),
    {
        let (undated, date, time) = session.sort_key();
        let rank: u8 = if undated {
            1
        } else {
            0
        };
        let key = keyed(rank, date, time);
        entries.push((key, session));
    }
    assert(entries@.map_values(|e: (SortKey, Session)| e.1) =~= all);
    sort_keyed(entries, Ghost(by_start()))
}

/// Puts bookings in the chronological order of their sessions.
pub fn sort_bookings(bookings: Vec<Booking>) -> (r: Vec<Booking>)
    ensures
        is_stable_sort(bookings@, bookings_by_start(), r@),
{
    proof {
        reveal_strlit("");
        assert(""@ =~= Seq::empty());
    }
    let ghost all = bookings@;
    let mut entries: Vec<(SortKey, Booking)> = Vec::new();
    for booking in it: bookings
        invariant
            ""@ == Seq::<char>::empty(),
            it.seq() == all,
            entries@.len() == it.index(),
            forall|i: int|
                0 <= i < entries@.len() ==> (#[trigger] entries@[i]).1 == all[i]
                    && entries@[i].0@ == bookings_by_start()(all[i]),
    {
        let key = if booking.session.is_empty() {
            keyed(2, "", "")
        } else {
            let (undated, date, time) = booking.session[0].sort_key();
            let rank: u8 = if undated {
                1
            } else {
                0
            };
            keyed(rank, date, time)
        };
        entries.push((key, booking));
    }
    assert(entries@.map_values(|e: (SortKey, Booking)| e.1) =~= all);
    sort_keyed(entries, Ghost(bookings_by_start()))
}

/// Puts sessions in the order of their dates alone; sessions of the same date keep their order.
pub fn sort_sessions_by_date(sessions: Vec<Session>) -> (r: Vec<Session>)
    ensures
        is_stable_sort(sessions@, by_date(), r@),
{
    proof {
        reveal_strlit("");
        assert(""@ =~= Seq::empty());
    }
    let ghost all = sessions@;
    let mut entries: Vec<(SortKey, Session)> = Vec::new();
    for session in it: sessions
        invariant
            ""@ == Seq::<char>::empty(),
            it.seq() == all,
            entries@.len() == it.index(),
            forall|i: int|
                0 <= i < entries@.len() ==> (#[trigger] entries@[i]).1 == all[i]
                    && entries@[i].0@ == by_date()(all[i]),
    {
        let rank: u8 = if session.date.is_none() {
            0
        } else {
            1
        };
        let key = keyed(rank, or_text(&session.date, ""), "");
        entries.push((key, session));
    }
    assert(entries@.map_values(|e: (SortKey, Session)| e.1) =~= all);
    sort_keyed(entries, Ghost(by_date()))
}

/// In chronological order, a session without a date is followed only by sessions without one,
/// no session is followed by one of an earlier date, and of two sessions of one date none is
/// followed by one of an earlier time.
pub proof fn sorted_sessions_are_chronological(
    input: Seq<Session>,
    output: Seq<Session>,
    i: int,
    j: int,
)
    requires
        is_stable_sort(input, by_start(), output),
        0 <= i < j < output.len(),
    ensures
        output[i].date is None ==> output[j].date is None,
        output[i].date is Some && output[j].date is Some ==> !crate::text::text_before(
            output[j].date->0@,
            output[i].date->0@,
        ),
        crate::text::optional_text(output[i].date) == crate::text::optional_text(output[j].date)
            ==> !crate::text::text_before(output[j].key().second, output[i].key().second),
{
    let from = choose|from: Seq<int>|
        #[trigger] crate::order::sorts_by(input, by_start(), output, from);
    assert(from[i] != from[j]);
    let a = by_start()(output[i]);
    let b = by_start()(output[j]);
    assert(a == output[i].key() && b == output[j].key());
    crate::text::text_order_is_total(a.first, b.first, a.first);
    crate::text::text_order_is_total(a.second, b.second, a.second);
}

/// In chronological order, a booking without a date is followed only by bookings without one,
/// and one without a session only by such. No booking is followed by one of an earlier date, and
/// of two of one date none is followed by one of an earlier time.
pub proof fn sorted_bookings_are_chronological(
    input: Seq<Booking>,
    output: Seq<Booking>,
    i: int,
    j: int,
)
    requires
        is_stable_sort(input, bookings_by_start(), output),
        0 <= i < j < output.len(),
    ensures
        !output[i].is_dated() ==> !output[j].is_dated(),
        output[i].first_session() is None ==> output[j].first_session() is None,
        output[i].first_session() matches Some(a) ==> (output[j].first_session() matches Some(b)
            ==> {
            &&& a.date is Some && b.date is Some ==> !crate::text::text_before(
                b.date->0@,
                a.date->0@,
            )
            &&& crate::text::optional_text(a.date) == crate::text::optional_text(b.date)
                ==> !crate::text::text_before(b.key().second, a.key().second)
        }),
{
    let from = choose|from: Seq<int>|
        #[trigger] crate::order::sorts_by(input, bookings_by_start(), output, from);
    assert(from[i] != from[j]);
    let a = bookings_by_start()(output[i]);
    let b = bookings_by_start()(output[j]);
    assert(a == output[i].key() && b == output[j].key());
    crate::text::text_order_is_total(a.first, b.first, a.first);
    crate::text::text_order_is_total(a.second, b.second, a.second);
}

/// In the order of dates, a session without a date comes before all that have one, and no session
/// is followed by one of an earlier date; every session of the listing is there, and no other.
pub proof fn sessions_come_in_the_order_of_their_dates(
    input: Seq<Session>,
    output: Seq<Session>,
    i: int,
    j: int,
)
    requires
        is_stable_sort(input, by_date(), output),
        0 <= i < j < output.len(),
    ensures
        output.len() == input.len(),
        output[i].date is Some ==> output[j].date is Some,
        output[i].date is Some ==> !crate::text::text_before(
            output[j].date->0@,
            output[i].date->0@,
        ),
{
    let from = choose|from: Seq<int>|
        #[trigger] crate::order::sorts_by(input, by_date(), output, from);
    assert(from[i] != from[j]);
    let a = by_date()(output[i]);
    let b = by_date()(output[j]);
    assert(a == date_key(output[i].date) && b == date_key(output[j].date));
    crate::text::text_order_is_total(a.first, b.first, a.first);
}

/// What is put in order is neither lost nor added to.
pub proof fn ordering_keeps_the_entries<T>(
    input: Seq<T>,
    key: spec_fn(T) -> Key,
    output: Seq<T>,
    entry: T,
)
    requires
        is_stable_sort(input, key, output),
    ensures
        output.len() == input.len(),
        output.contains(entry) <==> input.contains(entry),
{
    let from = choose|from: Seq<int>| #[trigger] crate::order::sorts_by(input, key, output, from);
    if input.contains(entry) {
        let i = choose|i: int| 0 <= i < input.len() && input[i] == entry;
        crate::order::sorting_keeps_every_entry(input, key, output, from, i);
    }
    if output.contains(entry) {
        let i = choose|i: int| 0 <= i < output.len() && output[i] == entry;
        assert(0 <= from[i] < input.len());
        assert(input[from[i]] == entry);
    }
}

/// The day of a timestamp is its first ten characters; where it has fewer, or where a character
/// outside ASCII straddles that place, none is shown.
pub proof fn the_day_is_the_front_of_the_date(date: Option<String>)
    ensures
        date is None ==> shown_day(date) == "?"@,
        date matches Some(d) ==> d@.len() < 10 && (forall|i: int|
            0 <= i < d@.len() ==> (#[trigger] d@[i] as u32) < 0x80) ==> shown_day(date) == "?"@,
        date matches Some(d) ==> d@.len() >= 10 && (forall|i: int|
            0 <= i < 10 ==> (#[trigger] d@[i] as u32) < 0x80) ==> shown_day(date) == d@.take(10),
{
    if let Some(d) = date {
        crate::text::leading_bytes_are_a_beginning(d@, 10);
        if d@.len() < 10 && (forall|i: int| 0 <= i < d@.len() ==> (#[trigger] d@[i] as u32)
            < 0x80) {
            lemma_ascii_takes_a_byte_each(d@);
            if let Some(p) = crate::text::byte_prefix(d@, 10) {
                crate::text::byte_counts_add_up(p, d@.skip(p.len() as int));
                assert(p + d@.skip(p.len() as int) =~= d@);
            }
        }
    }
}

proof fn lemma_ascii_takes_a_byte_each(s: Seq<char>)
    requires
        forall|i: int| 0 <= i < s.len() ==> (#[trigger] s[i] as u32) < 0x80,
    ensures
        crate::text::byte_count(s) == s.len(),
    decreases s.len(),
{
    if s.len() > 0 {
        let rest = s.drop_first();
        assert forall|i: int| 0 <= i < rest.len() implies (#[trigger] rest[i] as u32) < 0x80 by {
            assert(rest[i] == s[i + 1]);
        }
        lemma_ascii_takes_a_byte_each(rest);
        assert((s[0] as u32) < 0x80);
    }
}

/// A session in a picker shows its name, or its id only where it has no name, then its day, its
/// time, and how many of how many take part.
pub proof fn a_session_is_shown_by_its_fields(s: Session, r: String)
    requires
        call_ensures(Session::to_text, (&s,), r),
    ensures
        s.name matches Some(name) ==> crate::text::begins_with(r@, name@ + " | "@),
        s.name is None ==> crate::text::begins_with(r@, s.id@ + " | "@),
        exists|name: Seq<char>, time: Seq<char>, taken: Seq<char>|
            {
                &&& r@ == #[trigger] columns(name, shown_day(s.date), time, taken)
                &&& name == (match s.name {
                    Some(n) => n@,
                    None => s.id@,
                })
                &&& time == (match s.time {
                    Some(t) => t@,
                    None => "?"@,
                })
                &&& taken == (match s.total_capacity {
                    Some(c) => crate::number::decimal(s.yes_participants@.len()) + "/"@
                        + crate::number::decimal(c as nat) + " booked"@,
                    None => if s.yes_participants@.len() == 0 {
                        "?"@
                    } else {
                        crate::number::decimal(s.yes_participants@.len()) + " booked"@
                    },
                })
            },
{
    let name = crate::text::text_or(s.name, s.id@);
    let head = name + " | "@;
    assert(r@.subrange(0, head.len() as int) =~= head);
}

/// A booking in a picker shows the name of its session, or the session's id only where there is
/// no name, then day, time, and how many of how many take part, deleted attendees left out.
pub proof fn a_booking_is_shown_by_its_session(b: Booking, r: String)
    requires
        call_ensures(Booking::to_text, (&b,), r),
    ensures
        b.session@.len() == 0 ==> r@ == columns(b.session_id@, "?"@, "?"@, "?"@),
        b.session@.len() > 0 ==> {
            let s = b.session@[0];
            exists|name: Seq<char>, time: Seq<char>, taken: Seq<char>|
                {
                    &&& r@ == #[trigger] columns(name, shown_day(s.date), time, taken)
                    &&& name == (match s.name {
                        Some(n) => n@,
                        None => b.session_id@,
                    })
                    &&& time == (match s.time {
                        Some(t) => t@,
                        None => "?"@,
                    })
                    &&& taken == (match s.total_capacity {
                        Some(c) => crate::number::decimal(
                            s.attendees@.filter(|a: SessionAttendee| !a.deleted).len(),
                        ) + "/"@ + crate::number::decimal(c as nat) + " booked"@,
                        None => crate::number::decimal(
                            s.attendees@.filter(|a: SessionAttendee| !a.deleted).len(),
                        ) + " booked"@,
                    })
                }
        },
{
    if b.session@.len() > 0 {
        active_attendees_are_counted(b.session@[0].attendees@);
    }
}

/// The attendees that count are those that are not deleted, all of them.
pub proof fn active_attendees_are_counted(attendees: Seq<SessionAttendee>)
    ensures
        active_count(attendees) == attendees.filter(|a: SessionAttendee| !a.deleted).len(),
    decreases attendees.len(),
{
    reveal(Seq::filter);
    if attendees.len() > 0 {
        active_attendees_are_counted(attendees.drop_last());
    }
}

/// Four columns are their texts, in order, with a bar between neighbours.
pub proof fn columns_are_parted_by_bars(a: Seq<char>, b: Seq<char>, c: Seq<char>, d: Seq<char>)
    ensures
        columns(a, b, c, d) == crate::text::joined(seq![a, b, c, d], " | "@),
{
    let list = seq![a, b, c, d];
    let three = list.drop_last();
    let two = three.drop_last();
    let one = two.drop_last();
    assert(one.len() == 1 && one[0] == a);
    assert(two.last() == b && three.last() == c && list.last() == d);
    assert(crate::text::joined(one, " | "@) == a);
    assert(crate::text::joined(two, " | "@) == a + " | "@ + b);
    assert(crate::text::joined(three, " | "@) == a + " | "@ + b + " | "@ + c);
    assert(columns(a, b, c, d) =~= crate::text::joined(list, " | "@));
}

/// Sessions are put in chronological order, bookings in that of their sessions, and a listing in
/// that of its dates: each operation gives the entries it is given, once each, and in an order
/// in which no dated entry stands behind an undated one, or for dates alone before one.
#[verifier::spinoff_prover]
#[verifier::rlimit(40)]
pub proof fn listings_are_chronological(
    sessions: Vec<Session>,
    by_time: Vec<Session>,
    by_day: Vec<Session>,
    bookings: Vec<Booking>,
    booked: Vec<Booking>,
)
    requires
        call_ensures(sort_sessions, (sessions,), by_time),
        call_ensures(sort_sessions_by_date, (sessions,), by_day),
        call_ensures(sort_bookings, (bookings,), booked),
    ensures
        by_time@.len() == sessions@.len() && by_day@.len() == sessions@.len() && booked@.len()
            == bookings@.len(),
        forall|s: Session|
            #![trigger by_time@.contains(s)]
            #![trigger by_day@.contains(s)]
            {
                &&& by_time@.contains(s) <==> sessions@.contains(s)
                &&& by_day@.contains(s) <==> sessions@.contains(s)
            },
        forall|b: Booking| #[trigger] booked@.contains(b) <==> bookings@.contains(b),
        forall|i: int, j: int|
            0 <= i < j < by_time@.len() ==> starts_in_order(
                (#[trigger] by_time@[i]).date,
                by_time@[i].time,
                (#[trigger] by_time@[j]).date,
                by_time@[j].time,
            ),
        forall|i: int, j: int|
            0 <= i < j < by_day@.len() ==> {
                &&& (#[trigger] by_day@[i]).date is Some ==> (#[trigger] by_day@[j]).date is Some
                &&& by_day@[i].date is Some ==> !crate::text::text_before(
                    by_day@[j].date->0@,
                    by_day@[i].date->0@,
                )
            },
        forall|i: int, j: int|
            0 <= i < j < booked@.len() ==> {
                let a = #[trigger] booked@[i];
                let b = #[trigger] booked@[j];
                &&& a.session@.len() == 0 ==> b.session@.len() == 0
                &&& a.session@.len() > 0 && b.session@.len() > 0 ==> starts_in_order(
                    a.session@[0].date,
                    a.session@[0].time,
                    b.session@[0].date,
                    b.session@[0].time,
                )
            },
{
    assert forall|s: Session|
        #![trigger by_time@.contains(s)]
        #![trigger by_day@.contains(s)]
        {
            &&& by_time@.contains(s) <==> sessions@.contains(s)
            &&& by_day@.contains(s) <==> sessions@.contains(s)
        } by {
        ordering_keeps_the_entries(sessions@, by_start(), by_time@, s);
        ordering_keeps_the_entries(sessions@, by_date(), by_day@, s);
    }
    assert forall|b: Booking| #[trigger] booked@.contains(b) <==> bookings@.contains(b) by {
        ordering_keeps_the_entries(bookings@, bookings_by_start(), booked@, b);
    }
    assert forall|i: int, j: int| 0 <= i < j < by_time@.len() implies starts_in_order(
        (#[trigger] by_time@[i]).date,
        by_time@[i].time,
        (#[trigger] by_time@[j]).date,
        by_time@[j].time,
    ) by {
        sorted_sessions_are_chronological(sessions@, by_time@, i, j);
    }
    assert forall|i: int, j: int| 0 <= i < j < by_day@.len() implies {
        &&& (#[trigger] by_day@[i]).date is Some ==> (#[trigger] by_day@[j]).date is Some
        &&& by_day@[i].date is Some ==> !crate::text::text_before(
            by_day@[j].date->0@,
            by_day@[i].date->0@,
        )
    } by {
        sessions_come_in_the_order_of_their_dates(sessions@, by_day@, i, j);
    }
    assert forall|i: int, j: int| 0 <= i < j < booked@.len() implies {
        let a = #[trigger] booked@[i];
        let b = #[trigger] booked@[j];
        &&& a.session@.len() == 0 ==> b.session@.len() == 0
        &&& a.session@.len() > 0 && b.session@.len() > 0 ==> starts_in_order(
            a.session@[0].date,
            a.session@[0].time,
            b.session@[0].date,
            b.session@[0].time,
        )
    } by {
        sorted_bookings_are_chronological(bookings@, booked@, i, j);
    }
}

/// Whether two starts are in order: without a date only such follow, no earlier date follows a
/// later one, and on one date no earlier time a later one, a missing time being the earliest.
pub open spec fn starts_in_order(
    date: Option<String>,
    time: Option<String>,
    next_date: Option<String>,
    next_time: Option<String>,
) -> bool {
    &&& date is None ==> next_date is None
    &&& date is Some && next_date is Some ==> !crate::text::text_before(
        next_date->0@,
        date->0@,
    )
    &&& date is Some == next_date is Some && (date is Some ==> date->0@ == next_date->0@) ==> {
        &&& time is Some ==> next_time is Some || time->0@.len() == 0
        &&& time is Some && next_time is Some ==> !crate::text::text_before(
            next_time->0@,
            time->0@,
        )
    }
}

} // verus!
