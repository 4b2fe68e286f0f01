//! Comparing who takes part in two sessions.

use vstd::prelude::*;

use crate::client::MonClubClient;
use crate::detail::{add_line, labelled};
use crate::number::{decimal, decimal_text};
use crate::session::{show_day, shown_day, SessionAttendee, SessionDetail};
use crate::text::{
    is_before, or_text, same_text, text_before, text_or, text_order_is_total, texts,
};

verus! {

/// Two sessions, and the names of those who take part in both, or in only one of them.
#[derive(Debug)]
pub struct SessionComparison {
    pub session_a: SessionDetail,
    pub session_b: SessionDetail,
    pub in_both: Vec<String>,
    pub only_in_a: Vec<String>,
    pub only_in_b: Vec<String>,
}

/// Whether an attendee carries a name.
pub open spec fn is_named(attendee: SessionAttendee, name: Seq<char>) -> bool {
    attendee.full_name is Some && attendee.full_name->0@ == name
}

/// Whether some attendee of a list carries a name.
pub open spec fn attends(attendees: Seq<SessionAttendee>, name: Seq<char>) -> bool {
    exists|i: int| 0 <= i < attendees.len() && is_named(#[trigger] attendees[i], name)
}

/// Whether a list is in strictly ascending order.
pub open spec fn ascending(list: Seq<Seq<char>>) -> bool {
    forall|i: int, j: int|
        0 <= i < j < list.len() ==> text_before(#[trigger] list[i], #[trigger] list[j])
}

/// Whether a list holds exactly the names that satisfy a condition, each once, in order.
pub open spec fn is_sorted_list_of(
    list: Seq<Seq<char>>,
    condition: spec_fn(Seq<char>) -> bool,
) -> bool {
    &&& ascending(list)
    &&& forall|name: Seq<char>| #[trigger] list.contains(name) <==> condition(name)
}

fn has_attendee(attendees: &Vec<SessionAttendee>, name: &str) -> (r: bool)
    ensures
        r == attends(attendees@, name@),
{
    let mut i: usize = 0;
    while i < attendees.len()
        invariant
            i <= attendees.len(),
            forall|j: int| 0 <= j < i ==> !is_named(#[trigger] attendees@[j], name@),
        decreases attendees.len() - i,
    {
        if let Some(full_name) = &attendees[i].full_name {
            if same_text(full_name.as_str(), name) {
                assert(is_named(attendees@[i as int], name@));
                return true;
            }
        }
        i = i + 1;
    }
    false
}

/// Adds a name to an ascending list, at its place, unless it is there already.
fn insert_name(list: &mut Vec<String>, name: &str)
    requires
        ascending(texts(old(list)@)),
    ensures
        ascending(texts(final(list)@)),
        forall|n: Seq<char>| #[trigger]
            texts(final(list)@).contains(n) <==> texts(old(list)@).contains(n) || n == name@,
{
    let ghost before = texts(list@);
    let mut at: usize = 0;
    while at < list.len() && is_before(list[at].as_str(), name)
        invariant
            before == texts(list@),
            at <= list.len(),
            forall|j: int| 0 <= j < at ==> text_before(#[trigger] before[j], name@),
        decreases list.len() - at,
    {
        assert(before[at as int] == list@[at as int]@);
        at = at + 1;
    }
    if at < list.len() && same_text(list[at].as_str(), name) {
        assert(before[at as int] == name@);
        return;
    }
    proof {
        if at < list.len() {
            assert(before[at as int] == list@[at as int]@);
            text_order_is_total(before[at as int], name@, name@);
            assert(text_before(name@, before[at as int]));
        }
    }
    list.insert(at, name.to_owned());
    proof {
        let after = texts(list@);
        assert(after =~= before.insert(at as int, name@));
        assert forall|i: int, j: int| 0 <= i < j < after.len() implies text_before(
            #[trigger] after[i],
            #[trigger] after[j],
        ) by {
            if i == at {
                assert(after[j] == before[j - 1]);
                if j - 1 > at {
                    text_order_is_total(name@, before[at as int], before[j - 1]);
                }
            } else if j == at {
                assert(after[i] == before[i]);
            } else if j < at {
                assert(after[i] == before[i] && after[j] == before[j]);
            } else if i < at {
                assert(after[i] == before[i] && after[j] == before[j - 1]);
            } else {
                assert(after[i] == before[i - 1] && after[j] == before[j - 1]);
            }
        }
        assert forall|n: Seq<char>| #[trigger] after.contains(n) <==> before.contains(n) || n
            == name@ by {
            if before.contains(n) {
                let k = choose|k: int| 0 <= k < before.len() && before[k] == n;
                if k < at {
                    assert(after[k] == n);
                } else {
                    assert(after[k + 1] == n);
                }
            }
            if n == name@ {
                assert(after[at as int] == n);
            }
            if after.contains(n) {
                let k = choose|k: int| 0 <= k < after.len() && after[k] == n;
                if k < at {
                    assert(before[k] == n);
                } else if k > at {
                    assert(before[k - 1] == n);
                }
            }
        }
    }
}

/// Collects, sorted and without repetition, the names of `attendees` that `others` carries too
/// (`shared`), or that it does not carry.
fn collect_names(
    attendees: &Vec<SessionAttendee>,
    others: &Vec<SessionAttendee>,
    shared: bool,
) -> (r: Vec<String>)
    ensures
        is_sorted_list_of(
            texts(r@),
            |n: Seq<char>| attends(attendees@, n) && attends(others@, n) == shared,
        ),
{
    let mut list: Vec<String> = Vec::new();
    let mut i: usize = 0;
    while i < attendees.len()
        invariant
            i <= attendees.len(),
            ascending(texts(list@)),
            forall|n: Seq<char>| #[trigger]
                texts(list@).contains(n) <==> attends(attendees@.take(i as int), n) && attends(
                    others@,
                    n,
                ) == shared,
        decreases attendees.len() - i,
    {
        let ghost before = texts(list@);
        if let Some(name) = &attendees[i].full_name {
            if has_attendee(others, name.as_str()) == shared {
                insert_name(&mut list, name.as_str());
            }
        }
        proof {
            let old_front = attendees@.take(i as int);
            let front = attendees@.take(i + 1);
            assert forall|n: Seq<char>| #[trigger] attends(front, n) <==> attends(old_front, n)
                || is_named(attendees@[i as int], n) by {
                if attends(old_front, n) {
                    let k = choose|k: int|
                        0 <= k < old_front.len() && is_named(#[trigger] old_front[k], n);
                    assert(front[k] == old_front[k]);
                }
                if is_named(attendees@[i as int], n) {
                    assert(front[i as int] == attendees@[i as int]);
                }
                if attends(front, n) {
                    let k = choose|k: int|
                        0 <= k < front.len() && is_named(#[trigger] front[k], n);
                    if k < i {
                        assert(old_front[k] == front[k]);
                    }
                }
            }
            assert forall|n: Seq<char>| #[trigger] texts(list@).contains(n) <==> attends(front, n)
                && attends(others@, n) == shared by {
                assert(before.contains(n) <==> attends(old_front, n) && attends(others@, n)
                    == shared);
                assert(attends(front, n) <==> attends(old_front, n) || is_named(
                    attendees@[i as int],
                    n,
                ));
            }
        }
        i = i + 1;
    }
    assert(attendees@.take(attendees@.len() as int) =~= attendees@);
    list
}

impl SessionComparison {
    /// Whether a name is carried by an attendee of the first session.
    pub open spec fn attends_a(&self, name: Seq<char>) -> bool {
        attends(self.session_a.attendees@, name)
    }

    /// Whether a name is carried by an attendee of the second session.
    pub open spec fn attends_b(&self, name: Seq<char>) -> bool {
        attends(self.session_b.attendees@, name)
    }

    /// Whether the three lists are those of the two sessions.
    pub open spec fn is_exact(&self) -> bool {
        &&& is_sorted_list_of(
            texts(self.in_both@),
            |n: Seq<char>| self.attends_a(n) && self.attends_b(n),
        )
        &&& is_sorted_list_of(
            texts(self.only_in_a@),
            |n: Seq<char>| self.attends_a(n) && !self.attends_b(n),
        )
        &&& is_sorted_list_of(
            texts(self.only_in_b@),
            |n: Seq<char>| self.attends_b(n) && !self.attends_a(n),
        )
    }
}

impl MonClubClient {
    /// Compares the participants of two sessions.
    pub fn compare_sessions(a: SessionDetail, b: SessionDetail) -> (r: SessionComparison)
        ensures
            r.session_a == a,
            r.session_b == b,
            r.is_exact(),
    {
        let in_both = collect_names(&a.attendees, &b.attendees, true);
        let only_in_a = collect_names(&a.attendees, &b.attendees, false);
        let only_in_b = collect_names(&b.attendees, &a.attendees, false);
        let r = SessionComparison { session_a: a, session_b: b, in_both, only_in_a, only_in_b };
        proof {
            assert forall|n: Seq<char>| #[trigger]
                texts(r.in_both@).contains(n) <==> r.attends_a(n) && r.attends_b(n) by {}
            assert forall|n: Seq<char>| #[trigger]
                texts(r.only_in_a@).contains(n) <==> r.attends_a(n) && !r.attends_b(n) by {}
            assert forall|n: Seq<char>| #[trigger]
                texts(r.only_in_b@).contains(n) <==> r.attends_b(n) && !r.attends_a(n) by {}
        }
        r
    }
}

// ---------------------------------------------------------------------------
// Rendering
// ---------------------------------------------------------------------------

/// A session's name, day and time in one text.
pub open spec fn session_label(d: SessionDetail) -> Seq<char> {
    text_or(d.name, d.id@) + " ("@ + shown_day(d.date) + " "@ + text_or(d.time, "?"@) + ")"@
}

/// A heading with a count, and the names under it.
pub open spec fn group_lines(title: Seq<char>, names: Seq<Seq<char>>) -> Seq<Seq<char>> {
    seq![title + " ("@ + decimal(names.len()) + "):"@] + if names.len() == 0 {
        seq!["  (none)"@]
    } else {
        names.map_values(|n: Seq<char>| "  - "@ + n)
    }
}

fn label_of(d: &SessionDetail) -> (r: String)
    ensures
        r@ == session_label(*d),
{
    let mut out = or_text(&d.name, d.id.as_str()).to_owned();
    out.append(" (");
    out.append(show_day(&d.date));
    out.append(" ");
    out.append(or_text(&d.time, "?"));
    out.append(")");
    out
}

fn add_group(lines: &mut Vec<String>, title: &str, names: &Vec<String>)
    ensures
        texts(final(lines)@) == texts(old(lines)@) + group_lines(title@, texts(names@)),
{
    let ghost start = texts(lines@);
    let mut heading = title.to_owned();
    heading.append(" (");
    heading.append(decimal_text(names.len() as u64).as_str());
    heading.append("):");
    add_line(lines, heading);
    let ghost head = texts(lines@);
    if names.is_empty() {
        add_line(lines, "  (none)".to_owned());
        assert(texts(names@).len() == 0);
        assert(texts(lines@) =~= start + group_lines(title@, texts(names@)));
        return;
    }
    let ghost entries = texts(names@).map_values(|n: Seq<char>| "  - "@ + n);
    let mut i: usize = 0;
    assert(texts(lines@) =~= head + entries.take(0));
    while i < names.len()
        invariant
            i <= names.len(),
            entries == texts(names@).map_values(|n: Seq<char>| "  - "@ + n),
            texts(lines@) == head + entries.take(i as int),
        decreases names.len() - i,
    {
        add_line(lines, labelled("  - ", names[i].as_str()));
        assert(entries[i as int] == "  - "@ + names@[i as int]@);
        assert(texts(lines@) =~= head + entries.take(i + 1));
        i = i + 1;
    }
    assert(texts(lines@) =~= start + group_lines(title@, texts(names@)));
}

impl SessionComparison {
    /// The lines that show the comparison.
    pub open spec fn lines(&self) -> Seq<Seq<char>> {
        seq![
            "Session A: "@ + session_label(self.session_a),
            "Session B: "@ + session_label(self.session_b),
            Seq::empty(),
        ] + group_lines("In both"@, texts(self.in_both@)) + seq![Seq::empty()] + group_lines(
            "Only in A"@,
            texts(self.only_in_a@),
        ) + seq![Seq::empty()] + group_lines("Only in B"@, texts(self.only_in_b@))
    }

    /// Renders the comparison.
    pub fn display_lines(&self) -> (r: Vec<String>)
        ensures
            texts(r@) == self.lines(),
    {
        let mut lines: Vec<String> = Vec::new();
        add_line(&mut lines, labelled("Session A: ", label_of(&self.session_a).as_str()));
        add_line(&mut lines, labelled("Session B: ", label_of(&self.session_b).as_str()));
        add_line(&mut lines, String::new());
        let ghost head = seq![
            "Session A: "@ + session_label(self.session_a),
            "Session B: "@ + session_label(self.session_b),
            Seq::empty(),
        ];
        assert(texts(lines@) =~= head);
        add_group(&mut lines, "In both", &self.in_both);
        let ghost first = texts(lines@);
        add_line(&mut lines, String::new());
        assert(texts(lines@) =~= first + seq![Seq::empty()]);
        add_group(&mut lines, "Only in A", &self.only_in_a);
        let ghost second = texts(lines@);
        add_line(&mut lines, String::new());
        assert(texts(lines@) =~= second + seq![Seq::empty()]);
        add_group(&mut lines, "Only in B", &self.only_in_b);
        lines
    }
}

// ---------------------------------------------------------------------------
// Laws
// ---------------------------------------------------------------------------

/// The three lists of a comparison share no name, and together hold every name of the two
/// sessions and no other.
pub proof fn comparison_partitions_the_names(c: SessionComparison, name: Seq<char>)
    requires
        c.is_exact(),
    ensures
        (c.attends_a(name) || c.attends_b(name)) <==> (texts(c.in_both@).contains(name) || texts(
            c.only_in_a@,
        ).contains(name) || texts(c.only_in_b@).contains(name)),
        !(texts(c.in_both@).contains(name) && texts(c.only_in_a@).contains(name)),
        !(texts(c.in_both@).contains(name) && texts(c.only_in_b@).contains(name)),
        !(texts(c.only_in_a@).contains(name) && texts(c.only_in_b@).contains(name)),
{
}

/// A sorted list is determined by what it holds.
pub proof fn sorted_list_is_unique(
    left: Seq<Seq<char>>,
    right: Seq<Seq<char>>,
)
    requires
        ascending(left),
        ascending(right),
        forall|name: Seq<char>| #[trigger] left.contains(name) <==> right.contains(name),
    ensures
        left == right,
    decreases left.len(),
{
    if left.len() == 0 {
        if right.len() > 0 {
            assert(right.contains(right[0]));
            assert(left.contains(right[0]));
        }
        assert(left =~= right);
    } else {
        let x = left.last();
        assert(left[left.len() - 1] == x);
        assert(left.contains(x));
        assert(right.contains(x));
        let y = right.last();
        assert(right[right.len() - 1] == y);
        assert(right.contains(y));
        assert(left.contains(y));
        let i = choose|i: int| 0 <= i < left.len() && left[i] == y;
        let j = choose|j: int| 0 <= j < right.len() && right[j] == x;
        text_order_is_total(x, y, x);
        assert(x == y);
        let l = left.drop_last();
        let r = right.drop_last();
        assert forall|name: Seq<char>| #[trigger] l.contains(name) <==> r.contains(name) by {
            if l.contains(name) {
                let k = choose|k: int| 0 <= k < l.len() && l[k] == name;
                assert(left[k] == name);
                assert(left.contains(name));
                assert(right.contains(name));
                text_order_is_total(name, x, x);
                let m = choose|m: int| 0 <= m < right.len() && right[m] == name;
                assert(text_before(left[k], left[left.len() - 1]));
                assert(m < right.len() - 1);
                assert(r[m] == name);
            }
            if r.contains(name) {
                let k = choose|k: int| 0 <= k < r.len() && r[k] == name;
                assert(right[k] == name);
                assert(right.contains(name));
                assert(left.contains(name));
                text_order_is_total(name, x, x);
                let m = choose|m: int| 0 <= m < left.len() && left[m] == name;
                assert(text_before(right[k], right[right.len() - 1]));
                assert(m < left.len() - 1);
                assert(l[m] == name);
            }
        }
        assert forall|a: int, b: int| 0 <= a < b < l.len() implies text_before(
            #[trigger] l[a],
            #[trigger] l[b],
        ) by {
            assert(left[a] == l[a] && left[b] == l[b]);
        }
        assert forall|a: int, b: int| 0 <= a < b < r.len() implies text_before(
            #[trigger] r[a],
            #[trigger] r[b],
        ) by {
            assert(right[a] == r[a] && right[b] == r[b]);
        }
        sorted_list_is_unique(l, r);
        assert(left =~= l.push(x));
        assert(right =~= r.push(x));
    }
}

/// Comparing two sessions the other way round gives the same names in both, and swaps the two
/// lists of names in only one.
pub proof fn comparison_is_symmetric(c: SessionComparison, d: SessionComparison)
    requires
        c.is_exact(),
        d.is_exact(),
        c.session_a == d.session_b,
        c.session_b == d.session_a,
    ensures
        texts(c.in_both@) == texts(d.in_both@),
        texts(c.only_in_a@) == texts(d.only_in_b@),
        texts(c.only_in_b@) == texts(d.only_in_a@),
{
    sorted_list_is_unique(texts(c.in_both@), texts(d.in_both@));
    sorted_list_is_unique(texts(c.only_in_a@), texts(d.only_in_b@));
    sorted_list_is_unique(texts(c.only_in_b@), texts(d.only_in_a@));
}

/// A comparison lists, in strictly ascending order, as in both exactly the names that an attendee
/// of the one and an attendee of the other session carry, and as in one only exactly those that
/// only its attendees carry; whether an attendee is deleted does not matter.
pub proof fn names_are_listed_where_they_attend(
    a: SessionDetail,
    b: SessionDetail,
    r: SessionComparison,
    name: Seq<char>,
)
    requires
        call_ensures(MonClubClient::compare_sessions, (a, b), r),
    ensures
        r.session_a == a && r.session_b == b,
        ({
            let there = exists|i: int|
                0 <= i < a.attendees@.len() && ((#[trigger] a.attendees@[i]).full_name
                    matches Some(n) && n@ == name);
            let here = exists|i: int|
                0 <= i < b.attendees@.len() && ((#[trigger] b.attendees@[i]).full_name
                    matches Some(n) && n@ == name);
            &&& texts(r.in_both@).contains(name) <==> there && here
            &&& texts(r.only_in_a@).contains(name) <==> there && !here
            &&& texts(r.only_in_b@).contains(name) <==> here && !there
        }),
        forall|i: int, j: int|
            0 <= i < j < r.in_both@.len() ==> text_before(
                (#[trigger] r.in_both@[i])@,
                (#[trigger] r.in_both@[j])@,
            ),
        forall|i: int, j: int|
            0 <= i < j < r.only_in_a@.len() ==> text_before(
                (#[trigger] r.only_in_a@[i])@,
                (#[trigger] r.only_in_a@[j])@,
            ),
        forall|i: int, j: int|
            0 <= i < j < r.only_in_b@.len() ==> text_before(
                (#[trigger] r.only_in_b@[i])@,
                (#[trigger] r.only_in_b@[j])@,
            ),
{
    lemma_attends(a.attendees@, name);
    lemma_attends(b.attendees@, name);
    lemma_ascending(r.in_both@);
    lemma_ascending(r.only_in_a@);
    lemma_ascending(r.only_in_b@);
}

proof fn lemma_attends(attendees: Seq<SessionAttendee>, name: Seq<char>)
    ensures
        attends(attendees, name) <==> exists|i: int|
            0 <= i < attendees.len() && ((#[trigger] attendees[i]).full_name matches Some(n)
                && n@ == name),
{
    if exists|i: int|
        0 <= i < attendees.len() && ((#[trigger] attendees[i]).full_name matches Some(n) && n@
            == name) {
        let i = choose|i: int|
            0 <= i < attendees.len() && ((#[trigger] attendees[i]).full_name matches Some(n) && n@
                == name);
        assert(is_named(attendees[i], name));
    }
    if attends(attendees, name) {
        let i = choose|i: int| 0 <= i < attendees.len() && is_named(#[trigger] attendees[i], name);
        assert(attendees[i].full_name is Some);
    }
}

proof fn lemma_ascending(list: Seq<String>)
    requires
        ascending(texts(list)),
    ensures
        forall|i: int, j: int|
            0 <= i < j < list.len() ==> text_before((#[trigger] list[i])@, (#[trigger] list[j])@),
{
    assert forall|i: int, j: int| 0 <= i < j < list.len() implies text_before(
        (#[trigger] list[i])@,
        (#[trigger] list[j])@,
    ) by {
        assert(texts(list)[i] == list[i]@ && texts(list)[j] == list[j]@);
    }
}

/// Whether the lines from a place on show a group of names: a heading with how many there are,
/// and each name in a line of its own, or that there is none.
pub open spec fn shows_group(
    lines: Seq<Seq<char>>,
    at: int,
    title: Seq<char>,
    names: Seq<String>,
) -> bool {
    &&& 0 <= at < lines.len()
    &&& lines[at] == title + " ("@ + decimal(names.len()) + "):"@
    &&& if names.len() == 0 {
        at + 1 < lines.len() && lines[at + 1] == "  (none)"@
    } else {
        at + names.len() < lines.len() && forall|i: int|
            0 <= i < names.len() ==> lines[at + 1 + i] == "  - "@ + (#[trigger] names[i])@
    }
}

/// How many lines a group of names takes.
pub open spec fn group_size(names: Seq<String>) -> int {
    if names.len() == 0 {
        2
    } else {
        names.len() as int + 1
    }
}

/// A comparison is shown as the two sessions, by name, day and time, and the three groups of
/// names in full, a blank line between; nothing else is shown.
#[verifier::spinoff_prover]
#[verifier::rlimit(40)]
pub proof fn a_comparison_shows_every_name(c: SessionComparison, r: Vec<String>)
    requires
        call_ensures(SessionComparison::display_lines, (&c,), r),
    ensures
        ({
            let lines = texts(r@);
            let second = 4 + group_size(c.in_both@);
            let third = second + 1 + group_size(c.only_in_a@);
            &&& lines.len() == third + group_size(c.only_in_b@)
            &&& lines[0] == "Session A: "@ + labelled_session(c.session_a)
            &&& lines[1] == "Session B: "@ + labelled_session(c.session_b)
            &&& lines[2].len() == 0 && lines[second - 1].len() == 0 && lines[third - 1].len() == 0
            &&& shows_group(lines, 3, "In both"@, c.in_both@)
            &&& shows_group(lines, second, "Only in A"@, c.only_in_a@)
            &&& shows_group(lines, third, "Only in B"@, c.only_in_b@)
        }),
{
    let lines = texts(r@);
    assert(texts(c.in_both@).len() == c.in_both@.len());
    assert(texts(c.only_in_a@).len() == c.only_in_a@.len());
    assert(texts(c.only_in_b@).len() == c.only_in_b@.len());
    let a = group_lines("In both"@, texts(c.in_both@));
    let b = group_lines("Only in A"@, texts(c.only_in_a@));
    let d = group_lines("Only in B"@, texts(c.only_in_b@));
    let blank: Seq<Seq<char>> = seq![Seq::empty()];
    let head = seq![
        "Session A: "@ + session_label(c.session_a),
        "Session B: "@ + session_label(c.session_b),
        Seq::empty(),
    ];
    assert(lines == head + a + blank + b + blank + d);
    lemma_group(head, a, blank + b + blank + d, "In both"@, c.in_both@);
    assert(lines =~= head + a + (blank + b + blank + d));
    lemma_group(head + a + blank, b, blank + d, "Only in A"@, c.only_in_a@);
    assert(lines =~= head + a + blank + b + (blank + d));
    lemma_group(head + a + blank + b + blank, d, Seq::empty(), "Only in B"@, c.only_in_b@);
    assert(lines =~= head + a + blank + b + blank + d + Seq::empty());
    assert(lines[(head + a).len() as int] =~= Seq::<char>::empty());
    assert(lines[(head + a + blank + b).len() as int] =~= Seq::<char>::empty());
}

proof fn lemma_group(
    before: Seq<Seq<char>>,
    group: Seq<Seq<char>>,
    behind: Seq<Seq<char>>,
    title: Seq<char>,
    names: Seq<String>,
)
    requires
        group == group_lines(title, texts(names)),
    ensures
        group.len() == group_size(names),
        shows_group(before + group + behind, before.len() as int, title, names),
{
    let lines = before + group + behind;
    let at = before.len() as int;
    assert(texts(names).len() == names.len());
    assert(lines[at] == group[0]);
    if names.len() > 0 {
        assert forall|i: int| 0 <= i < names.len() implies lines[at + 1 + i] == "  - "@ + (
        #[trigger] names[i])@ by {
            assert(lines[at + 1 + i] == group[1 + i]);
            assert(texts(names)[i] == names[i]@);
        }
    } else {
        assert(lines[at + 1] == group[1]);
    }
}

/// A session by its name, or its id where it has none, with day and time.
pub open spec fn labelled_session(d: SessionDetail) -> Seq<char> {
    (match d.name {
        Some(name) => name@,
        None => d.id@,
    }) + " ("@ + shown_day(d.date) + " "@ + (match d.time {
        Some(time) => time@,
        None => "?"@,
    }) + ")"@
}

} // verus!
