//! Text primitives: comparison, rendering, splitting and searching.
//!
//! Every text is modelled as its sequence of characters.

use vstd::prelude::*;

verus! {

// ---------------------------------------------------------------------------
// Views of lists of texts
// ---------------------------------------------------------------------------

/// The texts of a list of strings.
pub open spec fn texts(list: Seq<String>) -> Seq<Seq<char>> {
    list.map_values(|s: String| s@)
}

/// The text of an optional string, or `fallback` when there is none.
pub open spec fn text_or(value: Option<String>, fallback: Seq<char>) -> Seq<char> {
    match value {
        Some(s) => s@,
        None => fallback,
    }
}

/// The text of an optional string.
pub open spec fn optional_text(value: Option<String>) -> Option<Seq<char>> {
    match value {
        Some(s) => Some(s@),
        None => None,
    }
}

/// The text of an optional string slice.
pub open spec fn optional_str(value: Option<&str>) -> Option<Seq<char>> {
    match value {
        Some(s) => Some(s@),
        None => None,
    }
}

pub fn or_text<'a>(value: &'a Option<String>, fallback: &'a str) -> (r: &'a str)
    ensures
        r@ == text_or(*value, fallback@),
{
    match value {
        Some(s) => s.as_str(),
        None => fallback,
    }
}

/// The characters of a string, in order.
pub fn chars_of(s: &str) -> (r: Vec<char>)
    ensures
        r@ == s@,
{
    let mut out: Vec<char> = Vec::new();
    for c in it: s.chars()
        invariant
            out@ == it.seq().take(it.index() as int),
            it.seq() == s@,
    {
        out.push(c);
        assert(it.seq().take(it.index() as int + 1) =~= it.seq().take(it.index() as int).push(c));
    }
    assert(s@.take(s@.len() as int) =~= s@);
    out
}

// ---------------------------------------------------------------------------
// Equality
// ---------------------------------------------------------------------------

/// `c` with an upper-case ASCII letter replaced by its lower-case form.
pub open spec fn ascii_lower(c: char) -> char {
    if 'A' <= c && c <= 'Z' {
        (c as u32 + 32) as char
    } else {
        c
    }
}

/// Whether two texts differ at most in the case of ASCII letters.
pub open spec fn same_ignoring_case(a: Seq<char>, b: Seq<char>) -> bool {
    &&& a.len() == b.len()
    &&& forall|i: int| 0 <= i < a.len() ==> ascii_lower(#[trigger] a[i]) == ascii_lower(b[i])
}

fn lower(c: char) -> (r: char)
    ensures
        r == ascii_lower(c),
{
    if 'A' <= c && c <= 'Z' {
        (c as u8 + 32) as char
    } else {
        c
    }
}

/// Compares two texts without regard to the case of ASCII letters.
pub fn eq_ignore_ascii_case(a: &str, b: &str) -> (r: bool)
    ensures
        r == same_ignoring_case(a@, b@),
{
    let x = chars_of(a);
    let y = chars_of(b);
    if x.len() != y.len() {
        return false;
    }
    let mut i: usize = 0;
    while i < x.len()
        invariant
            x@ == a@,
            y@ == b@,
            x.len() == y.len(),
            i <= x.len(),
            forall|j: int| 0 <= j < i ==> ascii_lower(#[trigger] a@[j]) == ascii_lower(b@[j]),
        decreases x.len() - i,
    {
        if lower(x[i]) != lower(y[i]) {
            assert(ascii_lower(a@[i as int]) != ascii_lower(b@[i as int]));
            return false;
        }
        i = i + 1;
    }
    true
}

/// Whether two texts are equal.
pub fn same_text(a: &str, b: &str) -> (r: bool)
    ensures
        r == (a@ == b@),
{
    let x = chars_of(a);
    let y = chars_of(b);
    if x.len() != y.len() {
        return false;
    }
    let mut i: usize = 0;
    while i < x.len()
        invariant
            x@ == a@,
            y@ == b@,
            x.len() == y.len(),
            i <= x.len(),
            forall|j: int| 0 <= j < i ==> #[trigger] a@[j] == b@[j],
        decreases x.len() - i,
    {
        if x[i] != y[i] {
            assert(a@[i as int] != b@[i as int]);
            return false;
        }
        i = i + 1;
    }
    assert(a@ =~= b@);
    true
}

/// Comparison without regard to ASCII case is an equivalence relation.
pub proof fn same_ignoring_case_is_an_equivalence(a: Seq<char>, b: Seq<char>, c: Seq<char>)
    ensures
        same_ignoring_case(a, a),
        same_ignoring_case(a, b) ==> same_ignoring_case(b, a),
        same_ignoring_case(a, b) && same_ignoring_case(b, c) ==> same_ignoring_case(a, c),
{
    if same_ignoring_case(a, b) {
        assert forall|i: int| 0 <= i < b.len() implies ascii_lower(#[trigger] b[i]) == ascii_lower(
            a[i],
        ) by {
            assert(ascii_lower(a[i]) == ascii_lower(b[i]));
        }
        if same_ignoring_case(b, c) {
            assert forall|i: int| 0 <= i < a.len() implies ascii_lower(#[trigger] a[i])
                == ascii_lower(c[i]) by {
                assert(ascii_lower(b[i]) == ascii_lower(c[i]));
            }
        }
    }
}

// ---------------------------------------------------------------------------
// White space
// ---------------------------------------------------------------------------

/// Whether a character is white space: whether it has Unicode's `White_Space` property.
pub open spec fn is_space(c: char) -> bool {
    ||| '\u{9}' <= c && c <= '\u{d}'
    ||| c == ' '
    ||| c == '\u{85}'
    ||| c == '\u{a0}'
    ||| c == '\u{1680}'
    ||| '\u{2000}' <= c && c <= '\u{200a}'
    ||| c == '\u{2028}'
    ||| c == '\u{2029}'
    ||| c == '\u{202f}'
    ||| c == '\u{205f}'
    ||| c == '\u{3000}'
}

/// Whether a character is white space.
pub fn is_whitespace(c: char) -> (r: bool)
    ensures
        r == is_space(c),
{
    ('\u{9}' <= c && c <= '\u{d}') || c == ' ' || c == '\u{85}' || c == '\u{a0}' || c
        == '\u{1680}' || ('\u{2000}' <= c && c <= '\u{200a}') || c == '\u{2028}' || c
        == '\u{2029}' || c == '\u{202f}' || c == '\u{205f}' || c == '\u{3000}'
}

/// `s` without its leading white space.
pub open spec fn trimmed_start(s: Seq<char>) -> Seq<char>
    decreases s.len(),
{
    if s.len() > 0 && is_space(s[0]) {
        trimmed_start(s.drop_first())
    } else {
        s
    }
}

/// `s` without its trailing white space.
pub open spec fn trimmed_end(s: Seq<char>) -> Seq<char>
    decreases s.len(),
{
    if s.len() > 0 && is_space(s.last()) {
        trimmed_end(s.drop_last())
    } else {
        s
    }
}

/// `s` without the white space at its two ends.
pub open spec fn trimmed(s: Seq<char>) -> Seq<char> {
    trimmed_end(trimmed_start(s))
}

/// Removes the white space at both ends.
pub fn trim(s: &str) -> (r: &str)
    ensures
        r@ == trimmed(s@),
{
    let chars = chars_of(s);
    let mut from: usize = 0;
    assert(s@.subrange(0, s@.len() as int) =~= s@);
    while from < chars.len() && is_whitespace(chars[from])
        invariant
            chars@ == s@,
            from <= chars.len(),
            trimmed_start(s@) == trimmed_start(s@.subrange(from as int, s@.len() as int)),
        decreases chars.len() - from,
    {
        assert(s@.subrange(from as int, s@.len() as int).drop_first() =~= s@.subrange(
            from + 1,
            s@.len() as int,
        ));
        from = from + 1;
    }
    let ghost rest = s@.subrange(from as int, s@.len() as int);
    assert(trimmed_start(s@) == rest);
    let mut to: usize = chars.len();
    while to > from && is_whitespace(chars[to - 1])
        invariant
            chars@ == s@,
            from <= to <= chars.len(),
            trimmed_end(rest) == trimmed_end(s@.subrange(from as int, to as int)),
        decreases to,
    {
        assert(s@.subrange(from as int, to as int).drop_last() =~= s@.subrange(
            from as int,
            to - 1,
        ));
        to = to - 1;
    }
    s.substring_char(from, to)
}

// ---------------------------------------------------------------------------
// Splitting and joining
// ---------------------------------------------------------------------------

/// The pieces between the separators of `s`, empty pieces among them.
pub open spec fn pieces(s: Seq<char>, separates: spec_fn(char) -> bool) -> Seq<Seq<char>>
    decreases s.len(),
{
    if s.len() == 0 {
        seq![Seq::empty()]
    } else {
        let before = pieces(s.drop_last(), separates);
        if separates(s.last()) {
            before.push(Seq::empty())
        } else {
            before.drop_last().push(before.last().push(s.last()))
        }
    }
}

/// The texts of a list that are not empty, in order.
pub open spec fn non_empty(list: Seq<Seq<char>>) -> Seq<Seq<char>>
    decreases list.len(),
{
    if list.len() == 0 {
        Seq::empty()
    } else {
        let before = non_empty(list.drop_last());
        if list.last().len() == 0 {
            before
        } else {
            before.push(list.last())
        }
    }
}

/// The words of `s`: its maximal runs of characters that are not white space.
pub open spec fn words(s: Seq<char>) -> Seq<Seq<char>> {
    non_empty(pieces(s, |c: char| is_space(c)))
}

/// The entries of a comma-separated list, trimmed, empty ones left out.
pub open spec fn entries(s: Seq<char>) -> Seq<Seq<char>> {
    non_empty(pieces(s, |c: char| c == ',').map_values(|p: Seq<char>| trimmed(p)))
}

/// What a text is split at.
#[derive(Clone, Copy)]
enum Separator {
    Comma,
    Space,
}

impl Separator {
    spec fn separates(self) -> spec_fn(char) -> bool {
        match self {
            Separator::Comma => |c: char| c == ',',
            Separator::Space => |c: char| is_space(c),
        }
    }

    fn splits_at(self, c: char) -> (r: bool)
        ensures
            r == (self.separates())(c),
    {
        match self {
            Separator::Comma => c == ',',
            Separator::Space => is_whitespace(c),
        }
    }
}

fn split(s: &str, at: Separator) -> (r: Vec<String>)
    ensures
        texts(r@) == pieces(s@, at.separates()),
{
    let chars = chars_of(s);
    let mut out: Vec<String> = Vec::new();
    let mut start: usize = 0;
    let mut i: usize = 0;
    assert(texts(out@).push(s@.subrange(0, 0)) =~= seq![Seq::<char>::empty()]) by {
        assert(s@.subrange(0, 0) =~= Seq::empty());
    }
    assert(s@.take(0) =~= Seq::empty());
    while i < chars.len()
        invariant
            chars@ == s@,
            start <= i <= chars.len(),
            pieces(s@.take(i as int), at.separates()) == texts(out@).push(
                s@.subrange(start as int, i as int),
            ),
        decreases chars.len() - i,
    {
        let ghost before = texts(out@);
        let ghost current = s@.subrange(start as int, i as int);
        proof {
            assert(s@.take(i + 1).drop_last() =~= s@.take(i as int));
            assert(before.push(current).drop_last() =~= before);
        }
        if at.splits_at(chars[i]) {
            out.push(s.substring_char(start, i).to_owned());
            start = i + 1;
            proof {
                assert(texts(out@) =~= before.push(current));
                assert(s@.subrange(i + 1, i + 1) =~= Seq::empty());
            }
        } else {
            assert(s@.subrange(start as int, i + 1) =~= current.push(s@[i as int]));
        }
        i = i + 1;
    }
    let ghost before = texts(out@);
    out.push(s.substring_char(start, chars.len()).to_owned());
    proof {
        assert(s@.take(s@.len() as int) =~= s@);
        assert(texts(out@) =~= before.push(s@.subrange(start as int, s@.len() as int)));
    }
    out
}

/// Splits a text into its words.
pub fn split_whitespace(s: &str) -> (r: Vec<String>)
    ensures
        texts(r@) == words(s@),
{
    let list = split(s, Separator::Space);
    keep_non_empty(&list)
}

/// Splits a comma-separated list into its entries.
pub fn split_entries(s: &str) -> (r: Vec<String>)
    ensures
        texts(r@) == entries(s@),
{
    let list = split(s, Separator::Comma);
    let ghost raw = pieces(s@, |c: char| c == ',');
    let mut trimmed_list: Vec<String> = Vec::new();
    let mut i: usize = 0;
    while i < list.len()
        invariant
            i <= list.len(),
            texts(list@) == raw,
            texts(trimmed_list@) == raw.take(i as int).map_values(|p: Seq<char>| trimmed(p)),
        decreases list.len() - i,
    {
        let ghost before = texts(trimmed_list@);
        trimmed_list.push(trim(list[i].as_str()).to_owned());
        proof {
            assert(raw[i as int] == list@[i as int]@);
            assert(texts(trimmed_list@) =~= before.push(trimmed(raw[i as int])));
            assert(raw.take(i + 1).map_values(|p: Seq<char>| trimmed(p)) =~= raw.take(
                i as int,
            ).map_values(|p: Seq<char>| trimmed(p)).push(trimmed(raw[i as int])));
        }
        i = i + 1;
    }
    assert(raw.take(raw.len() as int) =~= raw);
    keep_non_empty(&trimmed_list)
}

fn keep_non_empty(list: &Vec<String>) -> (r: Vec<String>)
    ensures
        texts(r@) == non_empty(texts(list@)),
{
    let mut out: Vec<String> = Vec::new();
    let mut i: usize = 0;
    let ghost all = texts(list@);
    assert(texts(out@) =~= non_empty(all.take(0)));
    while i < list.len()
        invariant
            i <= list.len(),
            all == texts(list@),
            texts(out@) == non_empty(all.take(i as int)),
        decreases list.len() - i,
    {
        let ghost before = texts(out@);
        proof {
            assert(all.take(i + 1).drop_last() =~= all.take(i as int));
            assert(all[i as int] == list@[i as int]@);
        }
        if !list[i].as_str().is_empty() {
            out.push(list[i].clone());
            assert(texts(out@) =~= before.push(list@[i as int]@));
        }
        i = i + 1;
    }
    assert(all.take(all.len() as int) =~= all);
    out
}

/// The texts of a list, one after the other, with `separator` between neighbours.
pub open spec fn joined(list: Seq<Seq<char>>, separator: Seq<char>) -> Seq<char>
    decreases list.len(),
{
    if list.len() < 2 {
        if list.len() == 1 {
            list[0]
        } else {
            Seq::empty()
        }
    } else {
        joined(list.drop_last(), separator) + separator + list.last()
    }
}

/// Joins the texts of a list.
pub fn join(list: &Vec<String>, separator: &str) -> (r: String)
    ensures
        r@ == joined(texts(list@), separator@),
{
    let mut out = String::new();
    let mut i: usize = 0;
    let ghost all = texts(list@);
    assert(out@ =~= joined(all.take(0), separator@));
    while i < list.len()
        invariant
            i <= list.len(),
            all == texts(list@),
            out@ == joined(all.take(i as int), separator@),
        decreases list.len() - i,
    {
        let ghost before = out@;
        proof {
            assert(all.take(i + 1).drop_last() =~= all.take(i as int));
            assert(all.take(i + 1).last() == list@[i as int]@);
        }
        if i > 0 {
            out.append(separator);
        }
        out.append(list[i].as_str());
        proof {
            if i == 0 {
                assert(out@ =~= list@[0]@);
                assert(all.take(1)[0] == list@[0]@);
            }
        }
        i = i + 1;
    }
    assert(all.take(all.len() as int) =~= all);
    out
}

// ---------------------------------------------------------------------------
// Searching
// ---------------------------------------------------------------------------

/// Whether `needle` stands in `s` at position `i`.
pub open spec fn occurs_at(s: Seq<char>, needle: Seq<char>, i: int) -> bool {
    0 <= i && i + needle.len() <= s.len() && s.subrange(i, i + needle.len()) == needle
}

/// Whether `needle` stands anywhere in `s`.
pub open spec fn occurs_in(s: Seq<char>, needle: Seq<char>) -> bool {
    exists|i: int| #[trigger] occurs_at(s, needle, i)
}

/// The two parts of `s` before and behind the first occurrence of `separator`.
pub open spec fn is_split_at_first(
    s: Seq<char>,
    separator: Seq<char>,
    parts: Option<(Seq<char>, Seq<char>)>,
) -> bool {
    match parts {
        Some((before, behind)) => {
            &&& s == before + separator + behind
            &&& forall|i: int| 0 <= i < before.len() ==> !occurs_at(s, separator, i)
        },
        None => !occurs_in(s, separator),
    }
}

/// Whether `s` begins with `prefix`.
pub open spec fn begins_with(s: Seq<char>, prefix: Seq<char>) -> bool {
    occurs_at(s, prefix, 0)
}

/// Whether `s` ends with `suffix`.
pub open spec fn ends_with(s: Seq<char>, suffix: Seq<char>) -> bool {
    occurs_at(s, suffix, s.len() - suffix.len())
}

fn matches_at(chars: &Vec<char>, needle: &Vec<char>, at: usize) -> (r: bool)
    requires
        at + needle.len() <= chars.len(),
    ensures
        r == occurs_at(chars@, needle@, at as int),
{
    let mut i: usize = 0;
    while i < needle.len()
        invariant
            at + needle.len() <= chars.len(),
            i <= needle.len(),
            forall|j: int| 0 <= j < i ==> chars@[at + j] == #[trigger] needle@[j],
        decreases needle.len() - i,
    {
        if chars[at + i] != needle[i] {
            assert(chars@.subrange(at as int, at + needle.len())[i as int] != needle@[i as int]);
            return false;
        }
        i = i + 1;
    }
    assert(chars@.subrange(at as int, at + needle.len()) =~= needle@);
    true
}

fn find(chars: &Vec<char>, needle: &Vec<char>) -> (r: Option<usize>)
    ensures
        match r {
            Some(i) => occurs_at(chars@, needle@, i as int) && forall|j: int|
                0 <= j < i ==> !occurs_at(chars@, needle@, j),
            None => !occurs_in(chars@, needle@),
        },
{
    let mut i: usize = 0;
    while i <= chars.len() && needle.len() <= chars.len() - i
        invariant
            i <= chars.len() + 1,
            forall|j: int| 0 <= j < i ==> !occurs_at(chars@, needle@, j),
        decreases chars.len() + 1 - i,
    {
        if matches_at(chars, needle, i) {
            return Some(i);
        }
        if i == chars.len() {
            return None;
        }
        i = i + 1;
    }
    None
}

/// Whether `needle` stands anywhere in `s`.
pub fn contains(s: &str, needle: &str) -> (r: bool)
    ensures
        r == occurs_in(s@, needle@),
{
    let chars = chars_of(s);
    let wanted = chars_of(needle);
    match find(&chars, &wanted) {
        Some(_) => true,
        None => false,
    }
}

/// Splits `s` at the first occurrence of `separator`.
pub fn split_once<'a>(s: &'a str, separator: &str) -> (r: Option<(&'a str, &'a str)>)
    ensures
        is_split_at_first(
            s@,
            separator@,
            match r {
                Some((before, behind)) => Some((before@, behind@)),
                None => None,
            },
        ),
{
    let chars = chars_of(s);
    let wanted = chars_of(separator);
    match find(&chars, &wanted) {
        Some(i) => {
            let total = chars.len();
            let before = s.substring_char(0, i);
            let behind = s.substring_char(i + wanted.len(), total);
            assert(s@ =~= before@ + s@.subrange(i as int, i + separator@.len()) + behind@);
            Some((before, behind))
        },
        None => None,
    }
}

/// `s` without its leading `prefix`; `None` when it does not begin so.
pub fn strip_prefix<'a>(s: &'a str, prefix: &str) -> (r: Option<&'a str>)
    ensures
        match r {
            Some(rest) => s@ == prefix@ + rest@,
            None => !begins_with(s@, prefix@),
        },
{
    let chars = chars_of(s);
    let wanted = chars_of(prefix);
    if wanted.len() <= chars.len() && matches_at(&chars, &wanted, 0) {
        let rest = s.substring_char(wanted.len(), chars.len());
        assert(s@ =~= s@.subrange(0, prefix@.len() as int) + rest@);
        Some(rest)
    } else {
        None
    }
}

/// `s` without its trailing `suffix`; `None` when it does not end so.
pub fn strip_suffix<'a>(s: &'a str, suffix: &str) -> (r: Option<&'a str>)
    ensures
        match r {
            Some(rest) => s@ == rest@ + suffix@,
            None => !ends_with(s@, suffix@),
        },
{
    let chars = chars_of(s);
    let wanted = chars_of(suffix);
    if wanted.len() <= chars.len() && matches_at(&chars, &wanted, chars.len() - wanted.len()) {
        let rest = s.substring_char(0, chars.len() - wanted.len());
        assert(s@ =~= rest@ + s@.subrange(s@.len() - suffix@.len(), s@.len() as int));
        Some(rest)
    } else {
        None
    }
}

/// `s` without the occurrences of `c` that it begins with.
pub open spec fn without_leading(s: Seq<char>, c: char) -> Seq<char>
    decreases s.len(),
{
    if s.len() > 0 && s[0] == c {
        without_leading(s.drop_first(), c)
    } else {
        s
    }
}

/// Removes every leading occurrence of `c`.
pub fn trim_start_matches(s: &str, c: char) -> (r: &str)
    ensures
        r@ == without_leading(s@, c),
{
    let chars = chars_of(s);
    let mut from: usize = 0;
    assert(s@.subrange(0, s@.len() as int) =~= s@);
    while from < chars.len() && chars[from] == c
        invariant
            chars@ == s@,
            from <= chars.len(),
            without_leading(s@, c) == without_leading(s@.subrange(from as int, s@.len() as int), c),
        decreases chars.len() - from,
    {
        assert(s@.subrange(from as int, s@.len() as int).drop_first() =~= s@.subrange(
            from + 1,
            s@.len() as int,
        ));
        from = from + 1;
    }
    s.substring_char(from, chars.len())
}

// ---------------------------------------------------------------------------
// Lower case
// ---------------------------------------------------------------------------

/// The lower-case form of a text, as `str::to_lowercase` gives it.
pub uninterp spec fn lowercase(s: Seq<char>) -> Seq<char>;

/// Calls `str::to_lowercase`, which maps a text by Unicode's `Lowercase` property. The result
/// depends on the text alone; the mapping itself is left unsaid.
#[verifier::external_body]
pub(crate) fn to_lowercase(s: &str) -> (r: String)
    ensures
        r@ == lowercase(s@),
{
    s.to_lowercase()
}

// ---------------------------------------------------------------------------
// Quoting
// ---------------------------------------------------------------------------

/// The quoted and escaped form of a text, as the `Debug` rendering of `str` gives it.
pub uninterp spec fn debug_quoted(s: Seq<char>) -> Seq<char>;

/// Renders a text with the `Debug` implementation of `str`: in double quotes, with escapes. The
/// result depends on the text alone; which characters are escaped is left unsaid.
#[verifier::external_body]
pub(crate) fn quoted(s: &str) -> (r: String)
    ensures
        r@ == debug_quoted(s@),
{
    format!("{:?}", s)
}

// ---------------------------------------------------------------------------
// Byte positions
// ---------------------------------------------------------------------------

/// How many bytes a character takes in UTF-8.
pub open spec fn utf8_width(c: char) -> nat {
    if (c as u32) < 0x80 {
        1
    } else if (c as u32) < 0x800 {
        2
    } else if (c as u32) < 0x1_0000 {
        3
    } else {
        4
    }
}

/// How many bytes a text takes in UTF-8.
pub open spec fn byte_count(s: Seq<char>) -> nat
    decreases s.len(),
{
    if s.len() == 0 {
        0
    } else {
        utf8_width(s[0]) + byte_count(s.drop_first())
    }
}

proof fn lemma_encoding_length(s: Seq<char>)
    ensures
        vstd::utf8::encode_utf8(s).len() == byte_count(s),
    decreases s.len(),
{
    if s.len() > 0 {
        lemma_encoding_length(s.drop_first());
        vstd::utf8::char_is_scalar(s[0]);
    }
}

/// How many bytes a text takes in UTF-8.
pub fn byte_len(s: &str) -> (r: usize)
    ensures
        r == byte_count(s@),
{
    proof {
        lemma_encoding_length(s@);
    }
    s.as_bytes().len()
}

/// A text takes at least a byte for each character, and texts one behind the other take what
/// they take alone.
pub proof fn byte_counts_add_up(a: Seq<char>, b: Seq<char>)
    ensures
        byte_count(a + b) == byte_count(a) + byte_count(b),
        a.len() <= byte_count(a),
    decreases a.len(),
{
    if a.len() == 0 {
        assert(a + b =~= b);
    } else {
        byte_counts_add_up(a.drop_first(), b);
        assert((a + b).drop_first() =~= a.drop_first() + b);
    }
}

/// The leading characters of `s` that take exactly `n` bytes in UTF-8; `None` when `s` is
/// shorter or when a character straddles that position.
pub open spec fn byte_prefix(s: Seq<char>, n: nat) -> Option<Seq<char>>
    decreases s.len(),
{
    if n == 0 {
        Some(Seq::empty())
    } else if s.len() == 0 || utf8_width(s[0]) > n {
        None
    } else {
        match byte_prefix(s.drop_first(), (n - utf8_width(s[0])) as nat) {
            Some(rest) => Some(seq![s[0]] + rest),
            None => None,
        }
    }
}

/// The first `n` bytes of `s` as text, where they end between two characters.
pub fn leading_bytes(s: &str, n: usize) -> (r: Option<&str>)
    ensures
        optional_str(r) == byte_prefix(s@, n as nat),
{
    let chars = chars_of(s);
    let mut left: usize = n;
    let mut i: usize = 0;
    assert(s@.skip(0) =~= s@);
    while left > 0
        invariant
            chars@ == s@,
            i <= chars.len(),
            byte_prefix(s@, n as nat) == (match byte_prefix(s@.skip(i as int), left as nat) {
                Some(rest) => Some(s@.take(i as int) + rest),
                None => None,
            }),
        decreases left,
    {
        if i == chars.len() {
            return None;
        }
        let code = chars[i] as u32;
        let width: usize = if code < 0x80 {
            1
        } else if code < 0x800 {
            2
        } else if code < 0x1_0000 {
            3
        } else {
            4
        };
        if width > left {
            return None;
        }
        proof {
            let rest = s@.skip(i as int);
            assert(rest[0] == s@[i as int]);
            assert(rest.drop_first() =~= s@.skip(i + 1));
            match byte_prefix(s@.skip(i + 1), (left - width) as nat) {
                Some(tail) => {
                    assert(s@.take(i as int) + (seq![s@[i as int]] + tail) =~= s@.take(i + 1)
                        + tail);
                },
                None => {},
            }
        }
        left = left - width;
        i = i + 1;
    }
    let prefix = s.substring_char(0, i);
    assert(prefix@ =~= s@.take(i as int) + Seq::empty());
    Some(prefix)
}

// ---------------------------------------------------------------------------
// Order
// ---------------------------------------------------------------------------

/// Whether `a` comes before `b` in the lexicographic order of code points.
pub open spec fn text_before(a: Seq<char>, b: Seq<char>) -> bool
    decreases a.len(),
{
    if b.len() == 0 {
        false
    } else if a.len() == 0 {
        true
    } else if a[0] != b[0] {
        a[0] < b[0]
    } else {
        text_before(a.drop_first(), b.drop_first())
    }
}

/// Whether `a` comes before `b` in lexicographic order.
pub fn is_before(a: &str, b: &str) -> (r: bool)
    ensures
        r == text_before(a@, b@),
{
    let x = chars_of(a);
    let y = chars_of(b);
    let mut i: usize = 0;
    assert(a@.skip(0) =~= a@);
    assert(b@.skip(0) =~= b@);
    while i < x.len() && i < y.len()
        invariant
            x@ == a@,
            y@ == b@,
            i <= x.len(),
            i <= y.len(),
            text_before(a@, b@) == text_before(a@.skip(i as int), b@.skip(i as int)),
        decreases x.len() - i,
    {
        if x[i] != y[i] {
            return x[i] < y[i];
        }
        assert(a@.skip(i as int).drop_first() =~= a@.skip(i + 1));
        assert(b@.skip(i as int).drop_first() =~= b@.skip(i + 1));
        i = i + 1;
    }
    i < y.len()
}

/// The lexicographic order is a strict total order.
pub proof fn text_order_is_total(a: Seq<char>, b: Seq<char>, c: Seq<char>)
    ensures
        !text_before(a, a),
        text_before(a, b) ==> !text_before(b, a),
        !text_before(a, b) && !text_before(b, a) ==> a == b,
        text_before(a, b) && text_before(b, c) ==> text_before(a, c),
    decreases a.len() + b.len() + c.len(),
{
    if a.len() > 0 && b.len() > 0 {
        if c.len() > 0 {
            text_order_is_total(a.drop_first(), b.drop_first(), c.drop_first());
        } else {
            text_order_is_total(a.drop_first(), b.drop_first(), c);
        }
        if !text_before(a, b) && !text_before(b, a) {
            assert(a.drop_first() == b.drop_first());
            assert(a =~= seq![a[0]] + a.drop_first());
            assert(b =~= seq![b[0]] + b.drop_first());
        }
    } else if a.len() > 0 {
        text_order_is_total(a.drop_first(), b, c);
    } else {
        if b.len() == 0 {
            assert(a =~= b);
        }
    }
}

// ---------------------------------------------------------------------------
// Laws
// ---------------------------------------------------------------------------

/// Two texts that are the same ASCII case aside have at each place the same character, or the
/// two forms of one ASCII letter; and two texts of that kind are the same.
pub proof fn only_ascii_case_is_ignored(a: Seq<char>, b: Seq<char>)
    ensures
        same_ignoring_case(a, b) <==> a.len() == b.len() && forall|i: int|
            0 <= i < a.len() ==> {
                ||| #[trigger] a[i] == b[i]
                ||| 'A' <= a[i] <= 'Z' && b[i] as int == a[i] as int + 32
                ||| 'A' <= b[i] <= 'Z' && a[i] as int == b[i] as int + 32
            },
{
    if same_ignoring_case(a, b) {
        assert forall|i: int| 0 <= i < a.len() implies {
            ||| #[trigger] a[i] == b[i]
            ||| 'A' <= a[i] <= 'Z' && b[i] as int == a[i] as int + 32
            ||| 'A' <= b[i] <= 'Z' && a[i] as int == b[i] as int + 32
        } by {
            assert(ascii_lower(a[i]) == ascii_lower(b[i]));
        }
    }
    if a.len() == b.len() && forall|i: int|
        0 <= i < a.len() ==> {
            ||| #[trigger] a[i] == b[i]
            ||| 'A' <= a[i] <= 'Z' && b[i] as int == a[i] as int + 32
            ||| 'A' <= b[i] <= 'Z' && a[i] as int == b[i] as int + 32
        } {
        assert forall|i: int| 0 <= i < a.len() implies ascii_lower(#[trigger] a[i])
            == ascii_lower(b[i]) by {
            assert(a[i] == b[i] || ('A' <= a[i] <= 'Z' && b[i] as int == a[i] as int + 32) || (
            'A' <= b[i] <= 'Z' && a[i] as int == b[i] as int + 32));
        }
    }
}

/// Joining nothing gives nothing, joining one text gives that text, and joining two lists one
/// behind the other gives their joined texts with one separator between.
pub proof fn joining_puts_separators_between(
    a: Seq<Seq<char>>,
    b: Seq<Seq<char>>,
    one: Seq<char>,
    separator: Seq<char>,
)
    ensures
        joined(Seq::empty(), separator) == Seq::<char>::empty(),
        joined(seq![one], separator) == one,
        a.len() > 0 && b.len() > 0 ==> joined(a + b, separator) == joined(a, separator) + separator
            + joined(b, separator),
    decreases b.len(),
{
    if a.len() > 0 && b.len() > 0 {
        let all = a + b;
        assert(all.last() == b.last());
        assert(all.drop_last() =~= a + b.drop_last());
        if b.len() == 1 {
            assert(a + b.drop_last() =~= a);
            assert(b.last() == b[0]);
        } else {
            joining_puts_separators_between(a, b.drop_last(), one, separator);
            assert(joined(a, separator) + separator + joined(b.drop_last(), separator) + separator
                + b.last() =~= joined(a, separator) + separator + (joined(b.drop_last(), separator)
                + separator + b.last()));
        }
    }
}

/// A text that stands in a part of another stands in the whole.
pub proof fn parts_stand_in_the_whole(
    before: Seq<char>,
    part: Seq<char>,
    behind: Seq<char>,
    needle: Seq<char>,
)
    requires
        occurs_in(part, needle),
    ensures
        occurs_in(before + part + behind, needle),
{
    let i = choose|i: int| #[trigger] occurs_at(part, needle, i);
    let whole = before + part + behind;
    let k = before.len() + i;
    assert(whole.subrange(k, k + needle.len()) =~= part.subrange(i, i + needle.len()));
    assert(occurs_at(whole, needle, k));
}

/// A text stands in itself.
pub proof fn a_text_stands_in_itself(s: Seq<char>)
    ensures
        occurs_in(s, s),
        begins_with(s, s),
{
    assert(s.subrange(0, s.len() as int) =~= s);
    assert(occurs_at(s, s, 0));
}

/// Every text of a list stands in the joined text.
pub proof fn joining_keeps_every_text(list: Seq<Seq<char>>, separator: Seq<char>, i: int)
    requires
        0 <= i < list.len(),
    ensures
        occurs_in(joined(list, separator), list[i]),
    decreases list.len(),
{
    a_text_stands_in_itself(list[i]);
    if list.len() > 1 {
        let front = joined(list.drop_last(), separator);
        if i == list.len() - 1 {
            parts_stand_in_the_whole(front + separator, list[i], Seq::empty(), list[i]);
            assert(front + separator + list[i] + Seq::empty() =~= joined(list, separator));
        } else {
            joining_keeps_every_text(list.drop_last(), separator, i);
            assert(list.drop_last()[i] == list[i]);
            parts_stand_in_the_whole(Seq::empty(), front, separator + list.last(), list[i]);
            assert(Seq::empty() + front + (separator + list.last()) =~= joined(list, separator));
        }
    }
}

/// A text comes before another where it is a proper beginning of it, or where at the first place
/// at which they differ it has the smaller character; nowhere else.
pub proof fn texts_are_ordered_as_in_a_dictionary(a: Seq<char>, b: Seq<char>)
    ensures
        text_before(a, b) <==> exists|k: int| #[trigger] differ_first_at(a, b, k) && (if k
            == a.len() {
            true
        } else {
            k < b.len() && a[k] < b[k]
        }),
    decreases a.len(),
{
    if a.len() > 0 && b.len() > 0 && a[0] == b[0] {
        let x = a.drop_first();
        let y = b.drop_first();
        texts_are_ordered_as_in_a_dictionary(x, y);
        if text_before(a, b) {
            let k = choose|k: int| #[trigger] differ_first_at(x, y, k) && (if k == x.len() {
                true
            } else {
                k < y.len() && x[k] < y[k]
            });
            assert forall|j: int| 0 <= j < k + 1 implies #[trigger] a[j] == b[j] by {
                if j > 0 {
                    assert(x[j - 1] == y[j - 1]);
                }
            }
            assert(differ_first_at(a, b, k + 1));
        }
        if exists|k: int| #[trigger] differ_first_at(a, b, k) && (if k == a.len() {
            true
        } else {
            k < b.len() && a[k] < b[k]
        }) {
            let k = choose|k: int| #[trigger] differ_first_at(a, b, k) && (if k == a.len() {
                true
            } else {
                k < b.len() && a[k] < b[k]
            });
            assert(k > 0);
            assert forall|j: int| 0 <= j < k - 1 implies #[trigger] x[j] == y[j] by {
                assert(a[j + 1] == b[j + 1]);
            }
            assert(differ_first_at(x, y, k - 1));
        }
    } else {
        if text_before(a, b) {
            assert(differ_first_at(a, b, 0));
        }
        if exists|k: int| #[trigger] differ_first_at(a, b, k) && (if k == a.len() {
            true
        } else {
            k < b.len() && a[k] < b[k]
        }) {
            let k = choose|k: int| #[trigger] differ_first_at(a, b, k) && (if k == a.len() {
                true
            } else {
                k < b.len() && a[k] < b[k]
            });
            if k > 0 {
                assert(a[0] == b[0]);
            }
        }
    }
}

/// Whether two texts are alike up to a place and not beyond: there one of them ends, or their
/// characters differ.
pub open spec fn differ_first_at(a: Seq<char>, b: Seq<char>, k: int) -> bool {
    &&& 0 <= k <= a.len()
    &&& k <= b.len()
    &&& forall|j: int| 0 <= j < k ==> #[trigger] a[j] == b[j]
    &&& !(k == a.len() && k == b.len())
    &&& k < a.len() && k < b.len() ==> a[k] != b[k]
}

/// Whether a text holds nothing but white space.
pub open spec fn is_blank(s: Seq<char>) -> bool {
    forall|i: int| 0 <= i < s.len() ==> is_space(#[trigger] s[i])
}

/// Trimming takes white space off the two ends, nothing else, and as much as there is.
pub proof fn trimming_takes_off_the_white_space_around(s: Seq<char>)
    ensures
        exists|from: int, to: int|
            0 <= from <= to <= s.len() && trimmed(s) == #[trigger] s.subrange(from, to)
                && is_blank(s.take(from)) && is_blank(s.skip(to)),
        trimmed(s).len() > 0 ==> !is_space(trimmed(s)[0]) && !is_space(trimmed(s).last()),
{
    let rest = trimmed_start(s);
    lemma_trimmed_start(s);
    lemma_trimmed_end(rest);
    let from = s.len() - rest.len();
    let to = from + trimmed(s).len();
    assert(trimmed(s) =~= s.subrange(from, to));
    assert forall|i: int| 0 <= i < s.skip(to).len() implies is_space(
        #[trigger] s.skip(to)[i],
    ) by {
        assert(s.skip(to)[i] == rest.skip(trimmed(s).len() as int)[i]);
    }
    assert(is_blank(s.take(from)) && is_blank(s.skip(to)));
}

proof fn lemma_trimmed_start(s: Seq<char>)
    ensures
        trimmed_start(s).len() <= s.len(),
        trimmed_start(s) == s.skip(s.len() - trimmed_start(s).len()),
        is_blank(s.take(s.len() - trimmed_start(s).len())),
        trimmed_start(s).len() > 0 ==> !is_space(trimmed_start(s)[0]),
    decreases s.len(),
{
    if s.len() > 0 && is_space(s[0]) {
        let rest = s.drop_first();
        lemma_trimmed_start(rest);
        let n = s.len() - trimmed_start(s).len();
        assert(s.skip(n) =~= rest.skip(n - 1));
        assert forall|i: int| 0 <= i < n implies is_space(#[trigger] s.take(n)[i]) by {
            if i > 0 {
                assert(s.take(n)[i] == rest.take(n - 1)[i - 1]);
            }
        }
    } else {
        assert(s.skip(0) =~= s);
    }
}

proof fn lemma_trimmed_end(s: Seq<char>)
    ensures
        trimmed_end(s).len() <= s.len(),
        trimmed_end(s) == s.take(trimmed_end(s).len() as int),
        is_blank(s.skip(trimmed_end(s).len() as int)),
        trimmed_end(s).len() > 0 ==> !is_space(trimmed_end(s).last()),
    decreases s.len(),
{
    if s.len() > 0 && is_space(s.last()) {
        let rest = s.drop_last();
        lemma_trimmed_end(rest);
        let n = trimmed_end(s).len() as int;
        assert(s.take(n) =~= rest.take(n));
        assert forall|i: int| 0 <= i < s.skip(n).len() implies is_space(
            #[trigger] s.skip(n)[i],
        ) by {
            if i < rest.skip(n).len() {
                assert(s.skip(n)[i] == rest.skip(n)[i]);
            }
        }
    } else {
        assert(s.take(s.len() as int) =~= s);
    }
}

proof fn lemma_pieces_of_two(
    a: Seq<char>,
    c: char,
    b: Seq<char>,
    separates: spec_fn(char) -> bool,
)
    requires
        separates(c),
    ensures
        pieces(a.push(c) + b, separates) == pieces(a, separates) + pieces(b, separates),
        pieces(b, separates).len() > 0,
    decreases b.len(),
{
    let all = a.push(c) + b;
    if b.len() == 0 {
        assert(all =~= a.push(c));
        assert(all.drop_last() =~= a);
        assert(pieces(all, separates) =~= pieces(a, separates) + pieces(b, separates));
    } else {
        lemma_pieces_of_two(a, c, b.drop_last(), separates);
        assert(all.drop_last() =~= a.push(c) + b.drop_last());
        assert(all.last() == b.last());
        let left = pieces(a, separates);
        let right = pieces(b.drop_last(), separates);
        assert((left + right).drop_last() =~= left + right.drop_last());
        assert((left + right).last() == right.last());
        assert(pieces(all, separates) =~= left + pieces(b, separates));
    }
}

proof fn lemma_single_piece(s: Seq<char>, separates: spec_fn(char) -> bool)
    requires
        forall|i: int| 0 <= i < s.len() ==> !separates(#[trigger] s[i]),
    ensures
        pieces(s, separates) == seq![s],
    decreases s.len(),
{
    if s.len() == 0 {
        assert(s =~= Seq::empty());
    } else {
        let front = s.drop_last();
        assert forall|i: int| 0 <= i < front.len() implies !separates(#[trigger] front[i]) by {
            assert(front[i] == s[i]);
        }
        lemma_single_piece(front, separates);
        assert(!separates(s[s.len() - 1]));
        assert(front.push(s.last()) =~= s);
        assert(pieces(s, separates) =~= seq![s]);
    }
}

proof fn lemma_non_empty_of_two(a: Seq<Seq<char>>, b: Seq<Seq<char>>)
    ensures
        non_empty(a + b) == non_empty(a) + non_empty(b),
    decreases b.len(),
{
    if b.len() == 0 {
        assert(a + b =~= a);
        assert(non_empty(a) + non_empty(b) =~= non_empty(a));
    } else {
        lemma_non_empty_of_two(a, b.drop_last());
        assert((a + b).drop_last() =~= a + b.drop_last());
        assert((a + b).last() == b.last());
        assert(non_empty(a + b) =~= non_empty(a) + non_empty(b));
    }
}

proof fn lemma_non_empty_of_one(s: Seq<char>)
    ensures
        non_empty(seq![s]) == (if s.len() == 0 {
            Seq::<Seq<char>>::empty()
        } else {
            seq![s]
        }),
{
    assert(seq![s].drop_last() =~= Seq::<Seq<char>>::empty());
    assert(non_empty(seq![s].drop_last()) =~= Seq::<Seq<char>>::empty());
    assert(seq![s].last() == s);
    assert(non_empty(seq![s]) =~= (if s.len() == 0 {
        Seq::<Seq<char>>::empty()
    } else {
        seq![s]
    }));
}

/// A text without white space is a single word, an empty one none; and a white-space character
/// parts the words in front of it from those behind it.
pub proof fn words_are_parted_by_white_space(word: Seq<char>, a: Seq<char>, c: char, b: Seq<char>)
    ensures
        words(Seq::empty()) == Seq::<Seq<char>>::empty(),
        word.len() > 0 && (forall|i: int| 0 <= i < word.len() ==> !is_space(#[trigger] word[i]))
            ==> words(word) == seq![word],
        is_space(c) ==> words(a.push(c) + b) == words(a) + words(b),
{
    let separates = |x: char| is_space(x);
    lemma_single_piece(Seq::empty(), separates);
    lemma_non_empty_of_one(Seq::empty());
    if forall|i: int| 0 <= i < word.len() ==> !is_space(#[trigger] word[i]) {
        lemma_single_piece(word, separates);
        lemma_non_empty_of_one(word);
    }
    if is_space(c) {
        lemma_pieces_of_two(a, c, b, separates);
        lemma_non_empty_of_two(pieces(a, separates), pieces(b, separates));
    }
}

/// A text without a comma is a single entry, without the white space around it, or none where
/// nothing else is in it; and a comma parts the entries in front of it from those behind it.
pub proof fn entries_are_parted_by_commas(entry: Seq<char>, a: Seq<char>, b: Seq<char>)
    ensures
        (forall|i: int| 0 <= i < entry.len() ==> #[trigger] entry[i] != ',') ==> entries(entry)
            == (if trimmed(entry).len() == 0 {
            Seq::<Seq<char>>::empty()
        } else {
            seq![trimmed(entry)]
        }),
        entries(a.push(',') + b) == entries(a) + entries(b),
{
    let separates = |c: char| c == ',';
    let trim_one = |p: Seq<char>| trimmed(p);
    if forall|i: int| 0 <= i < entry.len() ==> #[trigger] entry[i] != ',' {
        lemma_single_piece(entry, separates);
        assert(seq![entry].map_values(trim_one) =~= seq![trimmed(entry)]);
        lemma_non_empty_of_one(trimmed(entry));
    }
    lemma_pieces_of_two(a, ',', b, separates);
    let left = pieces(a, separates);
    let right = pieces(b, separates);
    assert((left + right).map_values(trim_one) =~= left.map_values(trim_one) + right.map_values(
        trim_one,
    ));
    lemma_non_empty_of_two(left.map_values(trim_one), right.map_values(trim_one));
}

/// The leading characters that take so many bytes are a beginning of the text and take just
/// that; there are none only where no beginning does. Of ASCII text they are as many characters.
pub proof fn leading_bytes_are_a_beginning(s: Seq<char>, n: nat)
    ensures
        byte_prefix(s, n) matches Some(p) ==> p.len() <= s.len() && p == s.take(p.len() as int)
            && byte_count(p) == n,
        byte_prefix(s, n) is None ==> forall|k: int|
            0 <= k <= s.len() ==> byte_count(#[trigger] s.take(k)) != n,
        n <= s.len() && (forall|i: int| 0 <= i < n ==> (#[trigger] s[i] as u32) < 0x80)
            ==> byte_prefix(s, n) == Some(s.take(n as int)),
    decreases s.len(),
{
    if n == 0 {
        assert(s.take(0) =~= Seq::empty());
    } else if s.len() == 0 {
        assert forall|k: int| 0 <= k <= s.len() implies byte_count(#[trigger] s.take(k)) != n by {
            assert(s.take(k).len() == 0);
        }
    } else {
        let rest = s.drop_first();
        assert forall|k: int| 0 < k <= s.len() implies byte_count(#[trigger] s.take(k))
            == utf8_width(s[0]) + byte_count(rest.take(k - 1)) by {
            assert(s.take(k).drop_first() =~= rest.take(k - 1));
            assert(s.take(k)[0] == s[0]);
        }
        if utf8_width(s[0]) > n {
            assert forall|k: int| 0 <= k <= s.len() implies byte_count(#[trigger] s.take(k))
                != n by {
                if k == 0 {
                    assert(s.take(k).len() == 0);
                }
            }
        } else {
            let left = (n - utf8_width(s[0])) as nat;
            leading_bytes_are_a_beginning(rest, left);
            match byte_prefix(rest, left) {
                Some(tail) => {
                    let p = seq![s[0]] + tail;
                    assert(p =~= s.take(p.len() as int));
                    assert(p.drop_first() =~= tail);
                },
                None => {
                    assert forall|k: int| 0 <= k <= s.len() implies byte_count(
                        #[trigger] s.take(k),
                    ) != n by {
                        if k == 0 {
                            assert(s.take(k).len() == 0);
                        }
                    }
                },
            }
            if n <= s.len() && (forall|i: int| 0 <= i < n ==> (#[trigger] s[i] as u32) < 0x80) {
                assert(s[0] as u32 <= 0x7f);
                assert forall|i: int| 0 <= i < left implies (#[trigger] rest[i] as u32) < 0x80 by {
                    assert(rest[i] == s[i + 1]);
                }
                assert(seq![s[0]] + rest.take(left as int) =~= s.take(n as int));
            }
        }
    }
}

/// Taking off what a text begins or ends with leaves the rest, whatever the rest is.
pub proof fn taking_apart_gives_the_parts_back(
    s: &str,
    part: &str,
    front: Option<&str>,
    back: Option<&str>,
    rest: Seq<char>,
)
    requires
        call_ensures(strip_prefix, (s, part), front),
        call_ensures(strip_suffix, (s, part), back),
    ensures
        s@ == part@ + rest ==> front is Some && front->0@ == rest,
        s@ == rest + part@ ==> back is Some && back->0@ == rest,
{
    if s@ == part@ + rest {
        assert(s@.subrange(0, part@.len() as int) =~= part@);
        assert(front->0@ =~= s@.skip(part@.len() as int));
        assert(rest =~= s@.skip(part@.len() as int));
    }
    if s@ == rest + part@ {
        assert(s@.subrange(s@.len() - part@.len(), s@.len() as int) =~= part@);
        assert(back->0@ =~= s@.take(rest.len() as int));
        assert(rest =~= s@.take(rest.len() as int));
    }
}

/// A text that is given is taken as it is, an empty one too; what stands in for it is taken only
/// where none is given.
pub proof fn a_given_text_is_taken(value: Option<String>, fallback: Seq<char>)
    ensures
        match value {
            Some(s) => text_or(value, fallback) == s@ && optional_text(value) == Some(s@),
            None => text_or(value, fallback) == fallback && optional_text(value) is None,
        },
{
}

/// A text is found in another exactly where the other is that text with something, perhaps
/// nothing, in front of it and behind it.
pub proof fn a_text_is_found_where_it_stands(s: &str, needle: &str, r: bool)
    requires
        call_ensures(contains, (s, needle), r),
    ensures
        r <==> exists|before: Seq<char>, behind: Seq<char>|
            s@ == #[trigger] (before + needle@ + behind),
{
    if r {
        let i = choose|i: int| #[trigger] occurs_at(s@, needle@, i);
        let before = s@.take(i);
        let behind = s@.skip(i + needle@.len());
        assert(s@ =~= before + s@.subrange(i, i + needle@.len()) + behind);
        assert(s@ == before + needle@ + behind);
    }
    if exists|before: Seq<char>, behind: Seq<char>| s@ == #[trigger] (before + needle@ + behind) {
        let (before, behind) = choose|before: Seq<char>, behind: Seq<char>|
            s@ == #[trigger] (before + needle@ + behind);
        a_text_stands_in_itself(needle@);
        parts_stand_in_the_whole(before, needle@, behind, needle@);
    }
}

/// A text is split at the first place at which the separator stands: what is in front of it does
/// not have it, and the parts with the separator between are the text. It is not split only where
/// the separator stands nowhere in it.
pub proof fn a_text_is_split_at_the_first_separator(
    s: &str,
    separator: &str,
    r: Option<(&str, &str)>,
)
    requires
        call_ensures(split_once, (s, separator), r),
        separator@.len() > 0,
    ensures
        r matches Some((a, b)) ==> s@ == a@ + separator@ + b@ && !occurs_in(a@, separator@),
        r is None <==> !occurs_in(s@, separator@),
{
    if let Some((a, b)) = r {
        let n = a@.len() as int;
        assert(s@.subrange(n, n + separator@.len()) =~= separator@);
        assert(occurs_at(s@, separator@, n));
        if occurs_in(a@, separator@) {
            let i = choose|i: int| #[trigger] occurs_at(a@, separator@, i);
            assert(s@.subrange(i, i + separator@.len()) =~= a@.subrange(
                i,
                i + separator@.len(),
            ));
            assert(occurs_at(s@, separator@, i));
        }
    }
}

} // verus!
