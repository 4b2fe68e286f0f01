//! The lines that show the full detail of a session.

use vstd::prelude::*;

use crate::number::{decimal, decimal_text};
use crate::session::{show_day, shown_day, Price, SessionAttendee, SessionCoach, SessionDetail};
use crate::text::{
    begins_with, join, joined, or_text, same_text, text_or, texts, trim, trimmed,
};

verus! {

/// Adds a line.
pub fn add_line(lines: &mut Vec<String>, line: String)
    ensures
        texts(final(lines)@) == texts(old(lines)@).push(line@),
{
    lines.push(line);
    assert(texts(lines@) =~= texts(old(lines)@).push(line@));
}

/// Puts `label` in front of `value`.
pub fn labelled(label: &str, value: &str) -> (r: String)
    ensures
        r@ == label@ + value@,
{
    let mut out = label.to_owned();
    out.append(value);
    out
}

/// Whether a price is zero: every bit but the sign is.
pub open spec fn is_free(price: Price) -> bool {
    price.bits == 0 || price.bits == 0x8000_0000_0000_0000
}

/// The names of the coaches that have one, in order.
pub open spec fn coach_names(coaches: Seq<SessionCoach>) -> Seq<Seq<char>>
    decreases coaches.len(),
{
    if coaches.len() == 0 {
        Seq::empty()
    } else {
        let before = coach_names(coaches.drop_last());
        match coaches.last().full_name {
            Some(name) => before.push(name@),
            None => before,
        }
    }
}

/// The numbered names of attendees, `?` standing for a missing name.
pub open spec fn numbered_attendees(attendees: Seq<SessionAttendee>) -> Seq<Seq<char>> {
    Seq::new(
        attendees.len(),
        |i: int|
            "  "@ + decimal((i + 1) as nat) + ". "@ + text_or(attendees[i].full_name, "?"@),
    )
}

impl SessionDetail {
    /// The name of the session, or its id.
    pub open spec fn shown_name(&self) -> Seq<char> {
        text_or(self.name, self.id@)
    }

    pub open spec fn name_line(&self) -> Seq<char> {
        "Session: "@ + self.shown_name()
    }

    pub open spec fn date_line(&self) -> Seq<char> {
        "Date: "@ + shown_day(self.date) + "  "@ + text_or(self.time, "?"@) + " - "@ + text_or(
            self.end_time,
            "?"@,
        )
    }

    /// The location, where one is known.
    pub open spec fn place_lines(&self) -> Seq<Seq<char>> {
        match self.place {
            Some(p) => seq![
                "Location: "@ + text_or(p.name, ""@) + ", "@ + text_or(p.city, ""@) + " ("@
                    + text_or(p.address, ""@) + ", "@ + text_or(p.zip_code, ""@) + ")"@,
            ],
            None => Seq::empty(),
        }
    }

    pub open spec fn participants_line(&self) -> Seq<char> {
        "Participants: "@ + decimal(self.yes_participants@.len()) + "/"@ + (
        match self.total_capacity {
            Some(c) => decimal(c as nat),
            None => "?"@,
        })
    }

    /// The price, where one is known.
    pub open spec fn price_lines(&self) -> Seq<Seq<char>> {
        match self.price {
            Some(p) => if is_free(p) {
                seq!["Price: free"@]
            } else {
                seq!["Price: "@ + p.text@ + "€"@]
            },
            None => Seq::empty(),
        }
    }

    /// The level, unless every level is welcome.
    pub open spec fn level_lines(&self) -> Seq<Seq<char>> {
        match self.level {
            Some(l) => if l@.len() == 0 || l@ == "allLevels"@ {
                Seq::empty()
            } else {
                seq!["Level: "@ + l@]
            },
            None => Seq::empty(),
        }
    }

    /// The coaches, where any has a name.
    pub open spec fn coach_lines(&self) -> Seq<Seq<char>> {
        match self.coachs {
            Some(list) => if coach_names(list@).len() == 0 {
                Seq::empty()
            } else {
                seq!["Coaches: "@ + joined(coach_names(list@), ", "@)]
            },
            None => Seq::empty(),
        }
    }

    /// The description, unless it is empty.
    pub open spec fn description_lines(&self) -> Seq<Seq<char>> {
        match self.description {
            Some(d) => if d@.len() == 0 {
                Seq::empty()
            } else {
                seq!["Description: "@ + d@]
            },
            None => Seq::empty(),
        }
    }

    /// The trimmed information, unless nothing is left of it.
    pub open spec fn info_lines(&self) -> Seq<Seq<char>> {
        match self.info {
            Some(i) => if trimmed(i@).len() == 0 {
                Seq::empty()
            } else {
                seq!["Info: "@ + trimmed(i@)]
            },
            None => Seq::empty(),
        }
    }

    /// The list of attendees, where there is any, under a heading.
    pub open spec fn attendee_lines(&self) -> Seq<Seq<char>> {
        if self.attendees@.len() == 0 {
            Seq::empty()
        } else {
            seq![Seq::empty(), "Participants:"@] + numbered_attendees(self.attendees@)
        }
    }

    /// The lines that show the session.
    pub open spec fn lines(&self) -> Seq<Seq<char>> {
        seq![self.name_line(), self.date_line()] + self.place_lines() + seq![
            self.participants_line(),
        ] + self.price_lines() + self.level_lines() + self.coach_lines() + self.description_lines()
            + self.info_lines() + self.attendee_lines()
    }

    /// Renders the full detail of the session.
    pub fn display_lines(&self) -> (r: Vec<String>)
        ensures
            texts(r@) == self.lines(),
    {
        let mut lines: Vec<String> = Vec::new();
        add_line(&mut lines, labelled("Session: ", or_text(&self.name, self.id.as_str())));
        self.add_date(&mut lines);
        assert(texts(lines@) =~= seq![self.name_line(), self.date_line()]);
        self.add_place(&mut lines);
        let ghost before = texts(lines@);
        self.add_participants(&mut lines);
        assert(texts(lines@) =~= before + seq![self.participants_line()]);
        self.add_price(&mut lines);
        self.add_level(&mut lines);
        self.add_coaches(&mut lines);
        self.add_description(&mut lines);
        self.add_info(&mut lines);
        self.add_attendees(&mut lines);
        lines
    }

    fn add_date(&self, lines: &mut Vec<String>)
        ensures
            texts(final(lines)@) == texts(old(lines)@).push(self.date_line()),
    {
        let mut line = "Date: ".to_owned();
        line.append(show_day(&self.date));
        line.append("  ");
        line.append(or_text(&self.time, "?"));
        line.append(" - ");
        line.append(or_text(&self.end_time, "?"));
        add_line(lines, line);
    }

    fn add_place(&self, lines: &mut Vec<String>)
        ensures
            texts(final(lines)@) == texts(old(lines)@) + self.place_lines(),
    {
        if let Some(place) = &self.place {
            let mut line = "Location: ".to_owned();
            line.append(or_text(&place.name, ""));
            line.append(", ");
            line.append(or_text(&place.city, ""));
            line.append(" (");
            line.append(or_text(&place.address, ""));
            line.append(", ");
            line.append(or_text(&place.zip_code, ""));
            line.append(")");
            add_line(lines, line);
        }
        assert(texts(lines@) =~= texts(old(lines)@) + self.place_lines());
    }

    fn add_participants(&self, lines: &mut Vec<String>)
        ensures
            texts(final(lines)@) == texts(old(lines)@).push(self.participants_line()),
    {
        let mut line = "Participants: ".to_owned();
        line.append(decimal_text(self.yes_participants.len() as u64).as_str());
        line.append("/");
        match self.total_capacity {
            Some(c) => line.append(decimal_text(c as u64).as_str()),
            None => line.append("?"),
        }
        add_line(lines, line);
    }

    fn add_price(&self, lines: &mut Vec<String>)
        ensures
            texts(final(lines)@) == texts(old(lines)@) + self.price_lines(),
    {
        if let Some(price) = &self.price {
            if price.bits == 0 || price.bits == 0x8000_0000_0000_0000 {
                add_line(lines, "Price: free".to_owned());
            } else {
                let mut line = "Price: ".to_owned();
                line.append(price.text.as_str());
                line.append("€");
                add_line(lines, line);
            }
        }
        assert(texts(lines@) =~= texts(old(lines)@) + self.price_lines());
    }

    fn add_level(&self, lines: &mut Vec<String>)
        ensures
            texts(final(lines)@) == texts(old(lines)@) + self.level_lines(),
    {
        if let Some(level) = &self.level {
            if !level.as_str().is_empty() && !same_text(level.as_str(), "allLevels") {
                add_line(lines, labelled("Level: ", level.as_str()));
            }
        }
        assert(texts(lines@) =~= texts(old(lines)@) + self.level_lines());
    }

    fn add_coaches(&self, lines: &mut Vec<String>)
        ensures
            texts(final(lines)@) == texts(old(lines)@) + self.coach_lines(),
    {
        if let Some(coaches) = &self.coachs {
            let names = named_coaches(coaches);
            assert(texts(names@).len() == names@.len());
            if !names.is_empty() {
                add_line(lines, labelled("Coaches: ", join(&names, ", ").as_str()));
            }
        }
        assert(texts(lines@) =~= texts(old(lines)@) + self.coach_lines());
    }

    fn add_description(&self, lines: &mut Vec<String>)
        ensures
            texts(final(lines)@) == texts(old(lines)@) + self.description_lines(),
    {
        if let Some(description) = &self.description {
            if !description.as_str().is_empty() {
                add_line(lines, labelled("Description: ", description.as_str()));
            }
        }
        assert(texts(lines@) =~= texts(old(lines)@) + self.description_lines());
    }

    fn add_info(&self, lines: &mut Vec<String>)
        ensures
            texts(final(lines)@) == texts(old(lines)@) + self.info_lines(),
    {
        if let Some(info) = &self.info {
            let text = trim(info.as_str());
            if !text.is_empty() {
                add_line(lines, labelled("Info: ", text));
            }
        }
        assert(texts(lines@) =~= texts(old(lines)@) + self.info_lines());
    }

    fn add_attendees(&self, lines: &mut Vec<String>)
        ensures
            texts(final(lines)@) == texts(old(lines)@) + self.attendee_lines(),
    {
        if self.attendees.is_empty() {
            assert(texts(lines@) =~= texts(old(lines)@) + self.attendee_lines());
            return;
        }
        add_line(lines, String::new());
        add_line(lines, "Participants:".to_owned());
        let ghost numbered = numbered_attendees(self.attendees@);
        let ghost head = texts(old(lines)@) + seq![Seq::empty(), "Participants:"@];
        let mut i: usize = 0;
        assert(texts(lines@) =~= head + numbered.take(0));
        while i < self.attendees.len()
            invariant
                i <= self.attendees.len(),
                numbered == numbered_attendees(self.attendees@),
                texts(lines@) == head + numbered.take(i as int),
            decreases self.attendees.len() - i,
        {
            let mut line = "  ".to_owned();
            line.append(decimal_text(i as u64 + 1).as_str());
            line.append(". ");
            line.append(or_text(&self.attendees[i].full_name, "?"));
            add_line(lines, line);
            assert(line@ == numbered[i as int]);
            assert(texts(lines@) =~= head + numbered.take(i + 1));
            i = i + 1;
        }
        assert(texts(lines@) =~= texts(old(lines)@) + self.attendee_lines());
    }
}

fn named_coaches(coaches: &Vec<SessionCoach>) -> (r: Vec<String>)
    ensures
        texts(r@) == coach_names(coaches@),
{
    let mut names: Vec<String> = Vec::new();
    let mut i: usize = 0;
    assert(texts(names@) =~= coach_names(coaches@.take(0)));
    while i < coaches.len()
        invariant
            i <= coaches.len(),
            texts(names@) == coach_names(coaches@.take(i as int)),
        decreases coaches.len() - i,
    {
        assert(coaches@.take(i + 1).drop_last() =~= coaches@.take(i as int));
        if let Some(name) = &coaches[i].full_name {
            add_line(&mut names, name.clone());
        }
        i = i + 1;
    }
    assert(coaches@.take(coaches@.len() as int) =~= coaches@);
    names
}

// ---------------------------------------------------------------------------
// Laws
// ---------------------------------------------------------------------------

/// The detail of a session begins with its name, or its id where it has none, and its day, time
/// and end; how many of how many take part is always shown.
pub proof fn a_detail_shows_what_and_when(d: SessionDetail, r: Vec<String>)
    requires
        call_ensures(SessionDetail::display_lines, (&d,), r),
    ensures
        r@.len() >= 3,
        r@[0]@ == "Session: "@ + (match d.name {
            Some(name) => name@,
            None => d.id@,
        }),
        r@[1]@ == "Date: "@ + shown_day(d.date) + "  "@ + (match d.time {
            Some(time) => time@,
            None => "?"@,
        }) + " - "@ + (match d.end_time {
            Some(end) => end@,
            None => "?"@,
        }),
        texts(r@).contains(
            "Participants: "@ + decimal(d.yes_participants@.len()) + "/"@ + (
            match d.total_capacity {
                Some(c) => decimal(c as nat),
                None => "?"@,
            }),
        ),
{
    lemma_parts_shown(d);
    assert(texts(r@).len() == r@.len());
    assert(texts(r@)[0] == r@[0]@ && texts(r@)[1] == r@[1]@);
}

/// Whatever is known of a session is shown: the place, the price, a level that is not every level,
/// the coaches that have a name, the description and the information.
#[verifier::spinoff_prover]
#[verifier::rlimit(40)]
pub proof fn a_detail_shows_what_is_known(d: SessionDetail, r: Vec<String>)
    requires
        call_ensures(SessionDetail::display_lines, (&d,), r),
    ensures
        d.place matches Some(p) ==> texts(r@).contains(
            "Location: "@ + text_or(p.name, ""@) + ", "@ + text_or(p.city, ""@) + " ("@ + text_or(
                p.address,
                ""@,
            ) + ", "@ + text_or(p.zip_code, ""@) + ")"@,
        ),
        d.price matches Some(p) ==> (p.bits == 0 || p.bits == 0x8000_0000_0000_0000)
            ==> texts(r@).contains("Price: free"@),
        d.price matches Some(p) ==> !(p.bits == 0 || p.bits == 0x8000_0000_0000_0000)
            ==> texts(r@).contains("Price: "@ + p.text@ + "€"@),
        d.level matches Some(l) ==> l@.len() > 0 && l@ != "allLevels"@ ==> texts(r@).contains(
            "Level: "@ + l@,
        ),
        d.coachs matches Some(list) ==> forall|i: int|
            0 <= i < list@.len() && (#[trigger] list@[i]).full_name is Some ==> exists|k: int|
                0 <= k < r@.len() && crate::text::begins_with(
                    (#[trigger] r@[k])@,
                    "Coaches: "@,
                ) && crate::text::occurs_in(r@[k]@, list@[i].full_name->0@),
        d.description matches Some(t) ==> t@.len() > 0 ==> texts(r@).contains(
            "Description: "@ + t@,
        ),
        d.info matches Some(t) ==> trimmed(t@).len() > 0 ==> texts(r@).contains(
            "Info: "@ + trimmed(t@),
        ),
{
    lemma_parts_shown(d);
    if let Some(list) = d.coachs {
        assert forall|i: int|
            0 <= i < list@.len() && (#[trigger] list@[i]).full_name is Some implies exists|k: int|
            0 <= k < r@.len() && crate::text::begins_with((#[trigger] r@[k])@, "Coaches: "@)
                && crate::text::occurs_in(r@[k]@, list@[i].full_name->0@) by {
            lemma_coach_named(list@, i);
            let names = coach_names(list@);
            let n = choose|n: int|
                0 <= n < names.len() && #[trigger] names[n] == list@[i].full_name->0@;
            crate::text::joining_keeps_every_text(names, ", "@, n);
            let line = "Coaches: "@ + joined(names, ", "@);
            crate::text::parts_stand_in_the_whole(
                "Coaches: "@,
                joined(names, ", "@),
                Seq::empty(),
                names[n],
            );
            assert(line =~= "Coaches: "@ + joined(names, ", "@) + Seq::empty());
            assert(line.subrange(0, "Coaches: "@.len() as int) =~= "Coaches: "@);
            let k = choose|k: int| 0 <= k < texts(r@).len() && texts(r@)[k] == line;
            assert(r@[k]@ == line);
        }
    }
}

/// What is not known of a session takes no line: apart from the three lines that are always
/// there, and the attendees with their heading, there is one line for each of place, price,
/// level, coaches, description and information that there is something to say of.
pub proof fn a_detail_shows_nothing_else(d: SessionDetail, r: Vec<String>)
    requires
        call_ensures(SessionDetail::display_lines, (&d,), r),
    ensures
        r@.len() == 3 + line_for(d.place is Some) + line_for(d.price is Some) + line_for(
            d.level is Some && d.level->0@.len() > 0 && d.level->0@ != "allLevels"@,
        ) + line_for(
            d.coachs is Some && exists|i: int|
                0 <= i < d.coachs->0@.len() && (#[trigger] d.coachs->0@[i]).full_name is Some,
        ) + line_for(d.description is Some && d.description->0@.len() > 0) + line_for(
            d.info is Some && trimmed(d.info->0@).len() > 0,
        ) + (if d.attendees@.len() == 0 {
            0int
        } else {
            2 + d.attendees@.len() as int
        }),
{
    assert(texts(r@).len() == r@.len());
    if let Some(list) = d.coachs {
        lemma_coaches_named(list@);
    }
}

/// One line where there is something to say, none where there is not.
pub open spec fn line_for(something: bool) -> int {
    if something {
        1
    } else {
        0
    }
}

/// The attendees end the detail: a blank line, a heading, and each attendee, numbered from one in
/// the order of the list, by name or by a question mark.
pub proof fn a_detail_numbers_the_attendees(d: SessionDetail, r: Vec<String>)
    requires
        call_ensures(SessionDetail::display_lines, (&d,), r),
        d.attendees@.len() > 0,
    ensures
        ({
            let first = r@.len() - d.attendees@.len();
            &&& first >= 2
            &&& r@[first - 2]@.len() == 0
            &&& r@[first - 1]@ == "Participants:"@
            &&& forall|i: int|
                0 <= i < d.attendees@.len() ==> r@[first + i]@ == "  "@ + decimal((i + 1) as nat)
                    + ". "@ + (match (#[trigger] d.attendees@[i]).full_name {
                    Some(name) => name@,
                    None => "?"@,
                })
        }),
{
    let lines = texts(r@);
    assert(lines.len() == r@.len());
    let numbered = numbered_attendees(d.attendees@);
    let first = r@.len() - d.attendees@.len();
    let tail = d.attendee_lines();
    let start = lines.len() - tail.len();
    assert(lines.skip(start) =~= tail);
    assert(lines[first - 2] == r@[first - 2]@ && lines[first - 1] == r@[first - 1]@);
    assert(lines[first - 2] == tail[0] && lines[first - 1] == tail[1]);
    assert forall|i: int| 0 <= i < d.attendees@.len() implies r@[first + i]@ == "  "@ + decimal(
        (i + 1) as nat,
    ) + ". "@ + (match (#[trigger] d.attendees@[i]).full_name {
        Some(name) => name@,
        None => "?"@,
    }) by {
        assert(lines[first + i] == r@[first + i]@);
        assert(lines[first + i] == tail[2 + i]);
        assert(tail[2 + i] == numbered[i]);
    }
}

proof fn lemma_coach_named(coaches: Seq<SessionCoach>, i: int)
    requires
        0 <= i < coaches.len(),
        coaches[i].full_name is Some,
    ensures
        exists|n: int|
            0 <= n < coach_names(coaches).len() && #[trigger] coach_names(coaches)[n]
                == coaches[i].full_name->0@,
    decreases coaches.len(),
{
    let names = coach_names(coaches);
    let front = coaches.drop_last();
    if i == coaches.len() - 1 {
        assert(names[names.len() - 1] == coaches[i].full_name->0@);
    } else {
        lemma_coach_named(front, i);
        let before = coach_names(front);
        let n = choose|n: int|
            0 <= n < before.len() && #[trigger] before[n] == front[i].full_name->0@;
        assert(names[n] == before[n]);
    }
}

proof fn lemma_coaches_named(coaches: Seq<SessionCoach>)
    ensures
        coach_names(coaches).len() > 0 <==> exists|i: int|
            0 <= i < coaches.len() && (#[trigger] coaches[i]).full_name is Some,
    decreases coaches.len(),
{
    if exists|i: int| 0 <= i < coaches.len() && (#[trigger] coaches[i]).full_name is Some {
        let i = choose|i: int| 0 <= i < coaches.len() && (#[trigger] coaches[i]).full_name is Some;
        lemma_coach_named(coaches, i);
    }
    if coaches.len() > 0 {
        let front = coaches.drop_last();
        lemma_coaches_named(front);
        if coaches.last().full_name is Some {
            assert(coaches[coaches.len() - 1].full_name is Some);
        } else if coach_names(coaches).len() > 0 {
            let i = choose|i: int|
                0 <= i < front.len() && (#[trigger] front[i]).full_name is Some;
            assert(coaches[i] == front[i]);
        }
    }
}

/// Each part of a detail is among its lines.
proof fn lemma_parts_shown(d: SessionDetail)
    ensures
        d.lines().len() >= 3,
        d.lines()[0] == d.name_line(),
        d.lines()[1] == d.date_line(),
        d.lines().contains(d.participants_line()),
        d.place_lines().len() == 1 ==> d.lines().contains(d.place_lines()[0]),
        d.price_lines().len() == 1 ==> d.lines().contains(d.price_lines()[0]),
        d.level_lines().len() == 1 ==> d.lines().contains(d.level_lines()[0]),
        d.coach_lines().len() == 1 ==> d.lines().contains(d.coach_lines()[0]),
        d.description_lines().len() == 1 ==> d.lines().contains(d.description_lines()[0]),
        d.info_lines().len() == 1 ==> d.lines().contains(d.info_lines()[0]),
{
    let lines = d.lines();
    let a: int = 2 + d.place_lines().len() as int;
    let b = a + 1;
    let c = b + d.price_lines().len();
    let e = c + d.level_lines().len();
    let f = e + d.coach_lines().len();
    let g = f + d.description_lines().len();
    assert(lines[a] == d.participants_line());
    if d.place_lines().len() == 1 {
        assert(lines[2] == d.place_lines()[0]);
    }
    if d.price_lines().len() == 1 {
        assert(lines[b] == d.price_lines()[0]);
    }
    if d.level_lines().len() == 1 {
        assert(lines[c] == d.level_lines()[0]);
    }
    if d.coach_lines().len() == 1 {
        assert(lines[e] == d.coach_lines()[0]);
    }
    if d.description_lines().len() == 1 {
        assert(lines[f] == d.description_lines()[0]);
    }
    if d.info_lines().len() == 1 {
        assert(lines[g] == d.info_lines()[0]);
    }
}

/// The coaches shown are those that have a name, in the order of the list.
pub proof fn coaches_with_a_name_are_shown(coaches: Seq<SessionCoach>)
    ensures
        coach_names(coaches) == coaches.filter(
            |c: SessionCoach| c.full_name is Some,
        ).map_values(|c: SessionCoach| c.full_name->0@),
    decreases coaches.len(),
{
    reveal(Seq::filter);
    if coaches.len() > 0 {
        coaches_with_a_name_are_shown(coaches.drop_last());
    }
    assert(coach_names(coaches) =~= coaches.filter(
        |c: SessionCoach| c.full_name is Some,
    ).map_values(|c: SessionCoach| c.full_name->0@));
}

/// The parts of a detail come in a fixed order: name, date, place, how many take part, price,
/// level, coaches, description, information.
#[verifier::spinoff_prover]
#[verifier::rlimit(40)]
pub proof fn a_detail_keeps_its_order(d: SessionDetail, r: Vec<String>)
    requires
        call_ensures(SessionDetail::display_lines, (&d,), r),
    ensures
        ({
            let lines = texts(r@);
            let taking_part = 2 + line_for(d.place is Some);
            let price = taking_part + 1;
            let level = price + line_for(d.price is Some);
            let coaches = level + line_for(
                d.level is Some && d.level->0@.len() > 0 && d.level->0@ != "allLevels"@,
            );
            let description = coaches + line_for(
                d.coachs is Some && exists|i: int|
                    0 <= i < d.coachs->0@.len() && (
                    #[trigger] d.coachs->0@[i]).full_name is Some,
            );
            let info = description + line_for(
                d.description is Some && d.description->0@.len() > 0,
            );
            &&& d.place is Some ==> begins_with(lines[2], "Location: "@)
            &&& begins_with(lines[taking_part], "Participants: "@)
            &&& d.price is Some ==> begins_with(lines[price], "Price: "@)
            &&& coaches > level ==> begins_with(lines[level], "Level: "@)
            &&& description > coaches ==> begins_with(lines[coaches], "Coaches: "@)
            &&& info > description ==> begins_with(lines[description], "Description: "@)
            &&& d.info is Some && trimmed(d.info->0@).len() > 0 ==> begins_with(
                lines[info],
                "Info: "@,
            )
        }),
{
    if let Some(list) = d.coachs {
        lemma_coaches_named(list@);
    }
    reveal_strlit("Price: free");
    reveal_strlit("Price: ");
    assert("Price: free"@.subrange(0, "Price: "@.len() as int) =~= "Price: "@);
    let lines = d.lines();
    let a: int = 2 + d.place_lines().len() as int;
    let b = a + 1;
    let c = b + d.price_lines().len();
    let e = c + d.level_lines().len();
    let f = e + d.coach_lines().len();
    let g = f + d.description_lines().len();
    assert(lines[a] == d.participants_line());
    lemma_begins(d.participants_line(), "Participants: "@);
    if d.place_lines().len() == 1 {
        assert(lines[2] == d.place_lines()[0]);
        lemma_begins(lines[2], "Location: "@);
    }
    if d.price_lines().len() == 1 {
        assert(lines[b] == d.price_lines()[0]);
        lemma_begins(lines[b], "Price: "@);
    }
    if d.level_lines().len() == 1 {
        assert(lines[c] == d.level_lines()[0]);
        lemma_begins(lines[c], "Level: "@);
    }
    if d.coach_lines().len() == 1 {
        assert(lines[e] == d.coach_lines()[0]);
        lemma_begins(lines[e], "Coaches: "@);
    }
    if d.description_lines().len() == 1 {
        assert(lines[f] == d.description_lines()[0]);
        lemma_begins(lines[f], "Description: "@);
    }
    if d.info_lines().len() == 1 {
        assert(lines[g] == d.info_lines()[0]);
        lemma_begins(lines[g], "Info: "@);
    }
}

proof fn lemma_begins(line: Seq<char>, title: Seq<char>)
    ensures
        title.len() <= line.len() && (forall|i: int|
            0 <= i < title.len() ==> #[trigger] line[i] == title[i]) ==> begins_with(line, title),
{
    if title.len() <= line.len() && forall|i: int|
        0 <= i < title.len() ==> #[trigger] line[i] == title[i] {
        assert(line.subrange(0, title.len() as int) =~= title);
    }
}

} // verus!
