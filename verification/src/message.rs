//! How sessions, bookings and reports look in Discord messages.

use vstd::prelude::*;

use crate::comparison::SessionComparison;
use crate::session::{show_day, shown_day, Booking, Session, SessionDetail};
use crate::text::{
    begins_with, byte_count, byte_counts_add_up, byte_len, joined, occurs_at, occurs_in, or_text,
    split_once, text_or, texts,
};

verus! {

// ---------------------------------------------------------------------------
// Sessions and bookings
// ---------------------------------------------------------------------------

/// Three columns separated by ` | `.
pub open spec fn three_columns(a: Seq<char>, b: Seq<char>, c: Seq<char>) -> Seq<char> {
    a + " | "@ + b + " | "@ + c
}

fn three_column_row(a: &str, b: &str, c: &str) -> (r: String)
    ensures
        r@ == three_columns(a@, b@, c@),
{
    let mut out = a.to_owned();
    out.append(" | ");
    out.append(b);
    out.append(" | ");
    out.append(c);
    out
}

/// A session in a message: name, day, time.
pub open spec fn session_text(s: Session) -> Seq<char> {
    three_columns(text_or(s.name, s.id@), shown_day(s.date), text_or(s.time, "?"@))
}

/// Renders a session: name, day, time.
pub fn format_session(s: &Session) -> (r: String)
    ensures
        r@ == session_text(*s),
{
    three_column_row(or_text(&s.name, s.id.as_str()), show_day(&s.date), or_text(&s.time, "?"))
}

/// A booking in a message: name, day, time of its session.
pub open spec fn booking_text(b: Booking) -> Seq<char> {
    three_columns(b.shown_name(), b.shown_day(), b.shown_time())
}

/// Renders a booking: name, day, time of its session.
pub fn format_booking(b: &Booking) -> (r: String)
    ensures
        r@ == booking_text(*b),
{
    three_column_row(b.show_name(), b.show_day(), b.show_time())
}

// ---------------------------------------------------------------------------
// Emphasis
// ---------------------------------------------------------------------------

/// Where `needle` first stands in `s`.
pub open spec fn first_at(s: Seq<char>, needle: Seq<char>) -> int {
    choose|i: int| #[trigger]
        occurs_at(s, needle, i) && forall|j: int| 0 <= j < i ==> !occurs_at(s, needle, j)
}

/// A line of the form `key: value` with its key in bold; any other line as it is. With
/// `values_only`, so is a line whose value is empty.
#[verifier::opaque]
pub open spec fn emphasised(line: Seq<char>, values_only: bool) -> Seq<char> {
    if occurs_in(line, ": "@) {
        let i = first_at(line, ": "@);
        let value = line.skip(i + 2);
        if values_only && value.len() == 0 {
            line
        } else {
            "**"@ + line.take(i) + ":** "@ + value
        }
    } else {
        line
    }
}

/// How each line of a list is emphasised.
pub open spec fn emphasis(values_only: bool) -> spec_fn(Seq<char>) -> Seq<char> {
    |line: Seq<char>| emphasised(line, values_only)
}

fn emphasise(line: &String, values_only: bool) -> (r: String)
    ensures
        r@ == emphasised(line@, values_only),
{
    proof {
        reveal(emphasised);
        reveal_strlit(": ");
    }
    match split_once(line.as_str(), ": ") {
        Some((key, value)) => {
            proof {
                let i = key@.len() as int;
                assert(line@.subrange(i, i + 2) =~= ": "@);
                assert(occurs_at(line@, ": "@, i));
                let k = first_at(line@, ": "@);
                assert(occurs_at(line@, ": "@, k));
                assert(k == i);
                assert(line@.take(i) =~= key@);
                assert(line@.skip(i + 2) =~= value@);
            }
            if values_only && value.is_empty() {
                line.clone()
            } else {
                let mut out = "**".to_owned();
                out.append(key);
                out.append(":** ");
                out.append(value);
                out
            }
        },
        None => line.clone(),
    }
}

fn emphasise_all(lines: Vec<String>, values_only: bool) -> (r: Vec<String>)
    ensures
        texts(r@) == texts(lines@).map_values(emphasis(values_only)),
{
    let mut out: Vec<String> = Vec::new();
    let mut i: usize = 0;
    let ghost all = texts(lines@);
    while i < lines.len()
        invariant
            i <= lines.len(),
            all == texts(lines@),
            texts(out@) == all.take(i as int).map_values(emphasis(values_only)),
        decreases lines.len() - i,
    {
        let ghost before = texts(out@);
        out.push(emphasise(&lines[i], values_only));
        proof {
            assert(all[i as int] == lines@[i as int]@);
            assert(texts(out@) =~= before.push(emphasised(all[i as int], values_only)));
            assert(all.take(i + 1).map_values(emphasis(values_only))
                =~= before.push(emphasised(all[i as int], values_only)));
        }
        i = i + 1;
    }
    assert(all.take(all.len() as int) =~= all);
    out
}

/// Renders the detail of a session, each line's key in bold.
pub fn format_session_detail(d: &SessionDetail) -> (r: Vec<String>)
    ensures
        texts(r@) == d.lines().map_values(emphasis(false)),
{
    emphasise_all(d.display_lines(), false)
}

/// Renders a comparison, the key of each line that has a value in bold.
pub fn format_comparison(c: &SessionComparison) -> (r: Vec<String>)
    ensures
        texts(r@) == c.lines().map_values(emphasis(true)),
{
    emphasise_all(c.display_lines(), true)
}

// ---------------------------------------------------------------------------
// Splitting into messages
// ---------------------------------------------------------------------------

/// How many bytes a message of several lines takes at most, safely under Discord's hard cap of
/// 2000 characters.
pub const LIMIT: usize = 1900;

/// The messages that are complete, and the one being filled.
pub struct Filling {
    pub complete: Seq<Seq<char>>,
    pub current: Seq<char>,
}

impl Filling {
    /// Whether a line makes the message being filled complete: there is something in it, and
    /// the line does not fit behind it.
    pub open spec fn overflows(self, line: Seq<char>) -> bool {
        self.current.len() > 0 && byte_count(self.current) + 1 + byte_count(line) > LIMIT
    }

    /// The messages after one more line.
    pub open spec fn with_line(self, line: Seq<char>) -> Filling {
        if self.overflows(line) {
            Filling { complete: self.complete.push(self.current), current: line }
        } else if self.current.len() == 0 {
            Filling { complete: self.complete, current: line }
        } else {
            Filling { complete: self.complete, current: self.current + "\n"@ + line }
        }
    }

    /// All messages.
    pub open spec fn messages(self) -> Seq<Seq<char>> {
        if self.current.len() == 0 {
            self.complete
        } else {
            self.complete.push(self.current)
        }
    }
}

/// The messages after the lines of a list.
pub open spec fn filled(lines: Seq<Seq<char>>) -> Filling
    decreases lines.len(),
{
    if lines.len() == 0 {
        Filling { complete: Seq::empty(), current: Seq::empty() }
    } else {
        filled(lines.drop_last()).with_line(lines.last())
    }
}

/// Splits lines into messages, each filled with as many lines as fit. A line that alone exceeds
/// the limit is a message of its own.
pub fn chunk_lines(lines: &Vec<String>) -> (r: Vec<String>)
    ensures
        texts(r@) == filled(texts(lines@)).messages(),
{
    let mut out: Vec<String> = Vec::new();
    let mut chunk = String::new();
    let mut i: usize = 0;
    let ghost all = texts(lines@);
    assert(texts(out@) =~= filled(all.take(0)).complete);
    assert(chunk@ =~= filled(all.take(0)).current);
    while i < lines.len()
        invariant
            i <= lines.len(),
            all == texts(lines@),
            texts(out@) == filled(all.take(i as int)).complete,
            chunk@ == filled(all.take(i as int)).current,
        decreases lines.len() - i,
    {
        let line = lines[i].as_str();
        proof {
            assert(all.take(i + 1).drop_last() =~= all.take(i as int));
            assert(all[i as int] == lines@[i as int]@);
        }
        if chunk.as_str().is_empty() {
            chunk = line.to_owned();
        } else {
            let used = byte_len(chunk.as_str());
            let needed = byte_len(line);
            if used >= LIMIT || needed >= LIMIT || used + 1 + needed > LIMIT {
                let ghost before = texts(out@);
                let ghost full = chunk@;
                out.push(chunk);
                assert(texts(out@) =~= before.push(full));
                chunk = line.to_owned();
            } else {
                chunk.append("\n");
                chunk.append(line);
            }
        }
        i = i + 1;
    }
    assert(all.take(all.len() as int) =~= all);
    if !chunk.as_str().is_empty() {
        let ghost before = texts(out@);
        let ghost full = chunk@;
        out.push(chunk);
        assert(texts(out@) =~= before.push(full));
    }
    out
}

/// Whether a character is no line break.
pub open spec fn no_break() -> spec_fn(char) -> bool {
    |c: char| c != '\n'
}

/// The texts of a list one behind the other, line breaks left out.
pub open spec fn unbroken(list: Seq<Seq<char>>) -> Seq<char>
    decreases list.len(),
{
    if list.len() == 0 {
        Seq::empty()
    } else {
        unbroken(list.drop_last()) + list.last().filter(no_break())
    }
}

/// Splitting loses no text: apart from line breaks, the messages one behind the other are the
/// lines one behind the other.
pub proof fn no_text_is_lost(lines: Seq<Seq<char>>)
    ensures
        unbroken(filled(lines).messages()) == unbroken(lines),
    decreases lines.len(),
{
    let kept = no_break();
    if lines.len() == 0 {
        assert(filled(lines).messages() =~= lines);
    } else {
        let before = filled(lines.drop_last());
        let line = lines.last();
        let after = before.with_line(line);
        no_text_is_lost(lines.drop_last());
        lemma_unbroken_messages(before);
        lemma_unbroken_messages(after);
        if before.overflows(line) {
            assert(after.complete.drop_last() =~= before.complete);
        } else if before.current.len() == 0 {
            lemma_nothing_kept(before.current);
            assert(unbroken(after.complete) + line.filter(kept) =~= unbroken(before.complete)
                + before.current.filter(kept) + line.filter(kept));
        } else {
            reveal_strlit("\n");
            let grown = before.current + "\n"@;
            assert("\n"@ =~= seq!['\n']);
            Seq::filter_distributes_over_add(before.current, "\n"@, kept);
            Seq::filter_distributes_over_add(grown, line, kept);
            lemma_break_not_kept();
            assert(unbroken(before.complete) + (before.current.filter(kept) + Seq::empty()
                + line.filter(kept)) =~= unbroken(before.complete) + before.current.filter(kept)
                + line.filter(kept));
        }
    }
}

proof fn lemma_nothing_kept(s: Seq<char>)
    requires
        s.len() == 0,
    ensures
        s.filter(no_break()) == Seq::<char>::empty(),
{
    reveal(Seq::filter);
    assert(s.filter(no_break()) =~= Seq::<char>::empty());
}

proof fn lemma_break_not_kept()
    ensures
        "\n"@.filter(no_break()) == Seq::<char>::empty(),
{
    reveal_strlit("\n");
    reveal(Seq::filter);
    assert("\n"@.drop_last() =~= Seq::empty());
    lemma_nothing_kept("\n"@.drop_last());
    assert("\n"@.last() == '\n');
}

proof fn lemma_unbroken_messages(f: Filling)
    ensures
        unbroken(f.messages()) == unbroken(f.complete) + f.current.filter(no_break()),
{
    if f.current.len() == 0 {
        lemma_nothing_kept(f.current);
        assert(unbroken(f.complete) + Seq::<char>::empty() =~= unbroken(f.complete));
    } else {
        assert(f.messages().drop_last() =~= f.complete);
    }
}

/// No message is empty, and where no line alone exceeds the limit, no message does.
pub proof fn messages_fit(lines: Seq<Seq<char>>)
    ensures
        forall|i: int|
            0 <= i < filled(lines).messages().len() ==> #[trigger] filled(
                lines,
            ).messages()[i].len() > 0,
        (forall|k: int| 0 <= k < lines.len() ==> byte_count(#[trigger] lines[k]) <= LIMIT) ==> (
        forall|i: int|
            0 <= i < filled(lines).messages().len() ==> byte_count(
                #[trigger] filled(lines).messages()[i],
            ) <= LIMIT && filled(lines).messages()[i].len() <= LIMIT),
{
    lemma_filling(lines);
    let f = filled(lines);
    assert forall|i: int| 0 <= i < f.messages().len() implies #[trigger] f.messages()[i].len()
        > 0 by {
        if i < f.complete.len() {
            assert(f.messages()[i] == f.complete[i]);
        }
    }
    if forall|k: int| 0 <= k < lines.len() ==> byte_count(#[trigger] lines[k]) <= LIMIT {
        assert forall|i: int| 0 <= i < f.messages().len() implies byte_count(
            #[trigger] f.messages()[i],
        ) <= LIMIT && f.messages()[i].len() <= LIMIT by {
            byte_counts_add_up(f.messages()[i], Seq::empty());
            if i < f.complete.len() {
                assert(f.messages()[i] == f.complete[i]);
            }
        }
    }
}

proof fn lemma_filling(lines: Seq<Seq<char>>)
    ensures
        forall|i: int|
            0 <= i < filled(lines).complete.len() ==> #[trigger] filled(lines).complete[i].len()
                > 0,
        (forall|k: int| 0 <= k < lines.len() ==> byte_count(#[trigger] lines[k]) <= LIMIT) ==> ({
            &&& byte_count(filled(lines).current) <= LIMIT
            &&& forall|i: int|
                0 <= i < filled(lines).complete.len() ==> byte_count(
                    #[trigger] filled(lines).complete[i],
                ) <= LIMIT
        }),
    decreases lines.len(),
{
    if lines.len() > 0 {
        let front = lines.drop_last();
        lemma_filling(front);
        let before = filled(front);
        let after = filled(lines);
        assert(lines.last() == lines[lines.len() - 1]);
        if forall|k: int| 0 <= k < lines.len() ==> byte_count(#[trigger] lines[k]) <= LIMIT {
            assert forall|k: int| 0 <= k < front.len() implies byte_count(#[trigger] front[k])
                <= LIMIT by {
                assert(front[k] == lines[k]);
            }
            if !before.overflows(lines.last()) && before.current.len() > 0 {
                reveal_strlit("\n");
                byte_counts_add_up(before.current, "\n"@);
                byte_counts_add_up(before.current + "\n"@, lines.last());
                assert(byte_count("\n"@) == 1) by {
                    assert("\n"@.drop_first() =~= Seq::empty());
                    assert(byte_count(Seq::empty()) == 0);
                    assert("\n"@[0] == '\n');
                }
            }
        }
        assert forall|i: int|
            0 <= i < after.complete.len() implies #[trigger] after.complete[i].len() > 0 by {
            if i < before.complete.len() {
                assert(after.complete[i] == before.complete[i]);
            }
        }
    }
}

/// Whether no line of a list is empty.
pub open spec fn none_empty(lines: Seq<Seq<char>>) -> bool {
    forall|k: int| 0 <= k < lines.len() ==> (#[trigger] lines[k]).len() > 0
}

/// Where no line is empty, splitting only turns some line breaks into message breaks: joined
/// again, the messages are the lines joined.
pub proof fn messages_join_to_the_lines(lines: Seq<Seq<char>>)
    requires
        none_empty(lines),
    ensures
        joined(filled(lines).messages(), "\n"@) == joined(lines, "\n"@),
    decreases lines.len(),
{
    if lines.len() == 0 {
        assert(filled(lines).messages() =~= lines);
    } else {
        let front = lines.drop_last();
        let line = lines.last();
        let before = filled(front);
        let after = filled(lines);
        assert(line == lines[lines.len() - 1]);
        lemma_front_none_empty(lines);
        messages_join_to_the_lines(front);
        lemma_something_filled(front);
        if front.len() == 0 {
            assert(after.messages() =~= seq![line]);
            assert(lines =~= seq![line]);
        } else if before.overflows(line) {
            assert(after.messages().drop_last() =~= before.messages());
        } else {
            assert(after.messages().drop_last() =~= before.complete);
            assert(before.messages().drop_last() =~= before.complete);
            if before.complete.len() == 0 {
                assert(joined(before.messages(), "\n"@) == before.current);
            } else {
                let head = joined(before.complete, "\n"@) + "\n"@;
                assert(head + (before.current + "\n"@ + line) =~= head + before.current + "\n"@
                    + line);
            }
        }
    }
}

proof fn lemma_front_none_empty(lines: Seq<Seq<char>>)
    requires
        none_empty(lines),
        lines.len() > 0,
    ensures
        none_empty(lines.drop_last()),
{
    let front = lines.drop_last();
    assert forall|k: int| 0 <= k < front.len() implies (#[trigger] front[k]).len() > 0 by {
        assert(front[k] == lines[k]);
    }
}

proof fn lemma_something_filled(lines: Seq<Seq<char>>)
    requires
        none_empty(lines),
    ensures
        if lines.len() == 0 {
            filled(lines).messages().len() == 0
        } else {
            filled(lines).current.len() > 0
        },
{
    if lines.len() > 0 {
        assert(lines.last() == lines[lines.len() - 1]);
    }
}

/// Whether a line is the first of a message.
pub open spec fn opens_with(message: Seq<char>, line: Seq<char>) -> bool {
    message == line || begins_with(message, line + "\n"@)
}

/// Whether a message could not have taken the first line of the next, which is `line`.
pub open spec fn full_for(message: Seq<char>, next: Seq<char>, line: Seq<char>) -> bool {
    opens_with(next, line) && byte_count(message) + 1 + byte_count(line) > 1900
}

/// Where no line is empty, each message is filled as far as it goes: the first line of the next
/// message would have exceeded the limit.
pub proof fn messages_are_filled(lines: Seq<Seq<char>>, i: int)
    requires
        none_empty(lines),
        0 <= i < filled(lines).messages().len() - 1,
    ensures
        exists|k: int|
            0 <= k < lines.len() && #[trigger] full_for(
                filled(lines).messages()[i],
                filled(lines).messages()[i + 1],
                lines[k],
            ),
    decreases lines.len(),
{
    let front = lines.drop_last();
    let line = lines.last();
    let last = lines.len() - 1;
    let before = filled(front);
    let after = filled(lines);
    assert(line == lines[last]);
    lemma_front_none_empty(lines);
    lemma_something_filled(front);
    lemma_something_filled(lines);
    if front.len() > 0 && before.overflows(line) && i == before.complete.len() {
        assert(full_for(after.messages()[i], after.messages()[i + 1], lines[last]));
    } else {
        messages_are_filled(front, i);
        let k = choose|k: int|
            0 <= k < front.len() && #[trigger] full_for(
                before.messages()[i],
                before.messages()[i + 1],
                front[k],
            );
        assert(front[k] == lines[k]);
        let next = before.messages()[i + 1];
        if !before.overflows(line) && i + 1 == before.complete.len() {
            let start = lines[k] + "\n"@;
            let grown = next + "\n"@ + line;
            if next == lines[k] {
                assert(grown.subrange(0, start.len() as int) =~= start);
            } else {
                assert(next.subrange(0, start.len() as int) =~= start);
                assert(grown.subrange(0, start.len() as int) =~= start);
            }
        }
        assert(full_for(after.messages()[i], after.messages()[i + 1], lines[k]));
    }
}

// ---------------------------------------------------------------------------
// What is shown
// ---------------------------------------------------------------------------

/// A session that has a name is shown with that name in front; its id stands there only where it
/// has none. The day follows, then the time, with a question mark for what is not known.
pub proof fn a_session_is_shown_by_its_name(s: Session, r: String)
    requires
        call_ensures(format_session, (&s,), r),
    ensures
        s.name matches Some(name) ==> begins_with(r@, name@ + " | "@),
        s.name is None ==> begins_with(r@, s.id@ + " | "@),
        r@ == (match s.name {
            Some(name) => name@,
            None => s.id@,
        }) + " | "@ + shown_day(s.date) + " | "@ + (match s.time {
            Some(time) => time@,
            None => "?"@,
        }),
{
    let head = text_or(s.name, s.id@) + " | "@;
    assert(r@.subrange(0, head.len() as int) =~= head);
}

/// A booking is shown with the name of its session in front, and with the session's id only where
/// there is no name; day and time follow.
pub proof fn a_booking_is_shown_by_its_name(b: Booking, r: String)
    requires
        call_ensures(format_booking, (&b,), r),
    ensures
        b.session@.len() == 0 ==> r@ == b.session_id@ + " | "@ + "?"@ + " | "@ + "?"@,
        b.session@.len() > 0 ==> r@ == (match b.session@[0].name {
            Some(name) => name@,
            None => b.session_id@,
        }) + " | "@ + shown_day(b.session@[0].date) + " | "@ + (match b.session@[0].time {
            Some(time) => time@,
            None => "?"@,
        }),
        b.session@.len() > 0 ==> (b.session@[0].name matches Some(name) ==> begins_with(
            r@,
            name@ + " | "@,
        )),
{
    let head = b.shown_name() + " | "@;
    assert(r@.subrange(0, head.len() as int) =~= head);
}

/// A line of the form `key: value`, the key without such a colon itself, has its key put in bold
/// and keeps its value; where only lines with a value are wanted, one without stays as it is. A
/// line of another form stays as it is.
pub proof fn keys_are_put_in_bold(key: Seq<char>, value: Seq<char>, values_only: bool)
    requires
        !occurs_in(key + ":"@, ": "@),
    ensures
        emphasised(key + ": "@ + value, values_only) == (if values_only && value.len() == 0 {
            key + ": "@ + value
        } else {
            "**"@ + key + ":** "@ + value
        }),
        !occurs_in(value, ": "@) ==> emphasised(value, values_only) == value,
{
    reveal(emphasised);
    reveal_strlit(": ");
    reveal_strlit(":");
    let line = key + ": "@ + value;
    let n = key.len() as int;
    assert(line.subrange(n, n + 2) =~= ": "@);
    assert(occurs_at(line, ": "@, n));
    assert forall|j: int| 0 <= j < n implies !occurs_at(line, ": "@, j) by {
        if occurs_at(line, ": "@, j) {
            let front = key + ":"@;
            assert(line.subrange(j, j + 2) =~= front.subrange(j, j + 2)) by {
                assert(": "@[0] == ":"@[0]);
            }
            assert(occurs_at(front, ": "@, j));
        }
    }
    let i = first_at(line, ": "@);
    assert(occurs_at(line, ": "@, i) && forall|j: int|
        0 <= j < i ==> !occurs_at(line, ": "@, j));
    assert(i == n);
    assert(line.take(n) =~= key);
    assert(line.skip(n + 2) =~= value);
}

/// Each line of a detail or of a comparison is shown, in order, at most with its key in bold.
pub proof fn every_line_is_shown(
    d: SessionDetail,
    detail: Vec<String>,
    c: SessionComparison,
    comparison: Vec<String>,
)
    requires
        call_ensures(format_session_detail, (&d,), detail),
        call_ensures(format_comparison, (&c,), comparison),
    ensures
        detail@.len() == d.lines().len(),
        comparison@.len() == c.lines().len(),
        forall|i: int|
            0 <= i < detail@.len() ==> (#[trigger] detail@[i])@ == emphasised(
                d.lines()[i],
                false,
            ),
        forall|i: int|
            0 <= i < comparison@.len() ==> (#[trigger] comparison@[i])@ == emphasised(
                c.lines()[i],
                true,
            ),
{
    assert(texts(detail@).len() == detail@.len());
    assert(texts(comparison@).len() == comparison@.len());
    assert forall|i: int| 0 <= i < detail@.len() implies (#[trigger] detail@[i])@ == emphasised(
        d.lines()[i],
        false,
    ) by {
        assert(texts(detail@)[i] == detail@[i]@);
    }
    assert forall|i: int| 0 <= i < comparison@.len() implies (#[trigger] comparison@[i])@
        == emphasised(c.lines()[i], true) by {
        assert(texts(comparison@)[i] == comparison@[i]@);
    }
}

/// Splitting into messages keeps within the platform's cap of 2000 characters where every line
/// does, keeps every line, and, where no line is empty, gives back the lines when the messages
/// are joined.
pub proof fn lines_are_split_without_loss(lines: Vec<String>, r: Vec<String>)
    requires
        call_ensures(chunk_lines, (&lines,), r),
        none_empty(texts(lines@)),
    ensures
        joined(texts(r@), "\n"@) == joined(texts(lines@), "\n"@),
        (forall|k: int|
            0 <= k < lines@.len() ==> byte_count((#[trigger] lines@[k])@) <= 1900) ==> (forall|
            i: int,
        |
            0 <= i < r@.len() ==> (#[trigger] r@[i])@.len() < 2000 && byte_count(r@[i]@) <= 1900),
        forall|i: int| 0 <= i < r@.len() ==> (#[trigger] r@[i])@.len() > 0,
        lines@.len() > 0 ==> r@.len() > 0,
        lines@.len() == 0 ==> r@.len() == 0,
{
    let all = texts(lines@);
    messages_join_to_the_lines(all);
    messages_fit(all);
    lemma_something_filled(all);
    assert(texts(r@).len() == r@.len());
    assert forall|i: int| 0 <= i < r@.len() implies (#[trigger] r@[i])@.len() > 0 by {
        assert(texts(r@)[i] == r@[i]@);
        assert(filled(all).messages()[i].len() > 0);
    }
    if forall|k: int| 0 <= k < lines@.len() ==> byte_count((#[trigger] lines@[k])@) <= 1900 {
        assert forall|k: int| 0 <= k < all.len() implies byte_count(#[trigger] all[k])
            <= LIMIT by {
            assert(all[k] == lines@[k]@);
        }
        assert forall|i: int| 0 <= i < r@.len() implies (#[trigger] r@[i])@.len() < 2000
            && byte_count(r@[i]@) <= 1900 by {
            assert(texts(r@)[i] == r@[i]@);
            assert(byte_count(filled(all).messages()[i]) <= LIMIT);
        }
    }
}

} // verus!
