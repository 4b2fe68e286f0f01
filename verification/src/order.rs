//! Ordering: sort keys and a stable sort.

use vstd::prelude::*;

use crate::text::is_before;
use crate::text::{text_before, text_order_is_total};

verus! {

/// What entries are ordered by: a rank, then two texts.
#[verifier::ext_equal]
pub struct Key {
    pub rank: int,
    pub first: Seq<char>,
    pub second: Seq<char>,
}

/// Whether key `a` comes before key `b`.
pub open spec fn key_before(a: Key, b: Key) -> bool {
    ||| a.rank < b.rank
    ||| a.rank == b.rank && text_before(a.first, b.first)
    ||| a.rank == b.rank && a.first == b.first && text_before(a.second, b.second)
}

/// The order of keys is a strict total order.
pub proof fn key_order_is_total(a: Key, b: Key, c: Key)
    ensures
        !key_before(a, a),
        key_before(a, b) ==> !key_before(b, a),
        !key_before(a, b) && !key_before(b, a) ==> a == b,
        key_before(a, b) && key_before(b, c) ==> key_before(a, c),
{
    text_order_is_total(a.first, b.first, c.first);
    text_order_is_total(a.second, b.second, c.second);
    text_order_is_total(b.first, c.first, a.first);
}

/// Whether `output` lists `input` in key order, where `from[i]` is the position in `input` of
/// the entry at position `i` of `output`: entries with equal keys keep their order.
pub open spec fn sorts_by<T>(
    input: Seq<T>,
    key: spec_fn(T) -> Key,
    output: Seq<T>,
    from: Seq<int>,
) -> bool {
    &&& output.len() == input.len()
    &&& from.len() == input.len()
    &&& forall|i: int|
        0 <= i < output.len() ==> 0 <= #[trigger] from[i] < input.len() && output[i]
            == input[from[i]]
    &&& forall|i: int, j: int|
        0 <= i < j < output.len() ==> #[trigger] from[i] != #[trigger] from[j] && (key_before(
            key(output[i]),
            key(output[j]),
        ) || (key(output[i]) == key(output[j]) && from[i] < from[j]))
}

/// Whether `output` is `input` put in key order, entries with equal keys keeping their order.
pub open spec fn is_stable_sort<T>(
    input: Seq<T>,
    key: spec_fn(T) -> Key,
    output: Seq<T>,
) -> bool {
    exists|from: Seq<int>| #[trigger] sorts_by(input, key, output, from)
}

/// An executable sort key.
pub struct SortKey {
    pub rank: u8,
    pub first: String,
    pub second: String,
}

impl View for SortKey {
    type V = Key;

    open spec fn view(&self) -> Key {
        Key { rank: self.rank as int, first: self.first@, second: self.second@ }
    }
}

impl SortKey {
    /// Whether this key comes before `other`.
    pub fn comes_before(&self, other: &SortKey) -> (r: bool)
        ensures
            r == key_before(self@, other@),
    {
        proof {
            text_order_is_total(self.first@, other.first@, self.first@);
        }
        if self.rank != other.rank {
            self.rank < other.rank
        } else if is_before(self.first.as_str(), other.first.as_str()) {
            true
        } else if is_before(other.first.as_str(), self.first.as_str()) {
            false
        } else {
            is_before(self.second.as_str(), other.second.as_str())
        }
    }
}

/// Puts keyed entries in key order; entries with equal keys keep their order.
pub(crate) fn sort_keyed<T>(
    entries: Vec<(SortKey, T)>,
    Ghost(key): Ghost<spec_fn(T) -> Key>,
) -> (r: Vec<T>)
    requires
        forall|i: int|
            0 <= i < entries@.len() ==> (#[trigger] entries@[i]).0@ == key(entries@[i].1),
    ensures
        is_stable_sort(entries@.map_values(|e: (SortKey, T)| e.1), key, r@),
{
    let ghost all = entries@;
    let ghost input = entries@.map_values(|e: (SortKey, T)| e.1);
    let mut placed: Vec<(SortKey, T)> = Vec::new();
    let ghost mut from: Seq<int> = Seq::empty();
    for entry in it: entries
        invariant
            it.seq() == all,
            input == all.map_values(|e: (SortKey, T)| e.1),
            forall|i: int| 0 <= i < all.len() ==> (#[trigger] all[i]).0@ == key(all[i].1),
            placed@.len() == it.index(),
            from.len() == it.index(),
            forall|i: int|
                0 <= i < from.len() ==> 0 <= #[trigger] from[i] < it.index() && placed@[i].1
                    == input[from[i]] && placed@[i].0@ == key(placed@[i].1),
            forall|i: int, j: int|
                0 <= i < j < from.len() ==> #[trigger] from[i] != #[trigger] from[j] && (
                key_before(placed@[i].0@, placed@[j].0@) || (placed@[i].0@ == placed@[j].0@
                    && from[i] < from[j])),
    {
        let ghost n = it.index() as int;
        let ghost k = entry.0@;
        assert(entry == all[n]);
        assert(input[n] == entry.1);
        let mut position: usize = placed.len();
        while position > 0 && entry.0.comes_before(&placed[position - 1].0)
            invariant
                position <= placed.len(),
                k == entry.0@,
                forall|j: int|
                    position <= j < placed@.len() ==> key_before(k, (#[trigger] placed@[j]).0@),
            decreases position,
        {
            position = position - 1;
        }
        proof {
            assert forall|i: int| 0 <= i < position implies key_before(
                (#[trigger] placed@[i]).0@,
                k,
            ) || placed@[i].0@ == k by {
                let last = position - 1;
                assert(!key_before(k, placed@[last].0@));
                key_order_is_total(placed@[last].0@, k, k);
                if i < last {
                    assert(from[i] != from[last]);
                    key_order_is_total(placed@[i].0@, placed@[last].0@, k);
                }
            }
        }
        let ghost before = placed@;
        let ghost from_before = from;
        placed.insert(position, entry);
        proof {
            from = from_before.insert(position as int, n);
            assert(placed@ == before.insert(position as int, entry));
            assert forall|i: int| 0 <= i < from.len() implies 0 <= #[trigger] from[i] < n + 1
                && placed@[i].1 == input[from[i]] && placed@[i].0@ == key(placed@[i].1) by {
                if i < position {
                    assert(from[i] == from_before[i]);
                } else if i > position {
                    assert(from[i] == from_before[i - 1]);
                }
            }
            assert forall|i: int, j: int| 0 <= i < j < from.len() implies #[trigger] from[i]
                != #[trigger] from[j] && (key_before(placed@[i].0@, placed@[j].0@) || (
            placed@[i].0@ == placed@[j].0@ && from[i] < from[j])) by {
                let a = if i < position {
                    i
                } else {
                    i - 1
                };
                let b = if j < position {
                    j
                } else {
                    j - 1
                };
                if i == position {
                    assert(from[j] == from_before[b]);
                    assert(placed@[j] == before[b]);
                } else if j == position {
                    assert(from[i] == from_before[a]);
                    assert(placed@[i] == before[a]);
                } else {
                    assert(from[i] == from_before[a]);
                    assert(from[j] == from_before[b]);
                    assert(from_before[a] != from_before[b]);
                }
            }
        }
    }
    let ghost sorted = placed@;
    let mut out: Vec<T> = Vec::new();
    for entry in it: placed
        invariant
            it.seq() == sorted,
            out@ == sorted.take(it.index() as int).map_values(|e: (SortKey, T)| e.1),
    {
        let ghost n = it.index() as int;
        let ghost before = out@;
        out.push(entry.1);
        assert(out@ =~= sorted.take(n + 1).map_values(|e: (SortKey, T)| e.1));
    }
    proof {
        assert(sorted.take(sorted.len() as int) =~= sorted);
        assert(sorts_by(input, key, out@, from));
    }
    out
}

/// Sorting loses no entry and adds none: every position of the input is taken exactly once.
pub proof fn sorting_keeps_every_entry<T>(
    input: Seq<T>,
    key: spec_fn(T) -> Key,
    output: Seq<T>,
    from: Seq<int>,
    position: int,
)
    requires
        sorts_by(input, key, output, from),
        0 <= position < input.len(),
    ensures
        from.contains(position),
        output.contains(input[position]),
{
    let all = vstd::set_lib::set_int_range(0, input.len() as int);
    vstd::set_lib::lemma_int_range(0, input.len() as int);
    assert(from.no_duplicates()) by {
        assert forall|i: int, j: int|
            0 <= i < from.len() && 0 <= j < from.len() && i != j implies from[i] != from[j] by {
            if i < j {
                assert(from[i] != from[j]);
            } else {
                assert(from[j] != from[i]);
            }
        }
    }
    from.unique_seq_to_set();
    vstd::seq_lib::seq_to_set_is_finite(from);
    assert(from.to_set().subset_of(all)) by {
        assert forall|x: int| from.to_set().contains(x) implies all.contains(x) by {
            let i = choose|i: int| 0 <= i < from.len() && from[i] == x;
            assert(0 <= from[i] < input.len());
        }
    }
    vstd::set_lib::lemma_subset_equality(from.to_set(), all);
    assert(all.contains(position));
    assert(from.to_set().contains(position));
    let i = choose|i: int| 0 <= i < from.len() && from[i] == position;
    assert(output[i] == input[from[i]]);
}

/// An order on the positions of a list: by key, and by position where the keys are equal.
spec fn position_before<T>(input: Seq<T>, key: spec_fn(T) -> Key, a: int, b: int) -> bool {
    key_before(key(input[a]), key(input[b])) || (key(input[a]) == key(input[b]) && a < b)
}

/// There is only one way to put a list in order: the entries of two orderings come from the same
/// positions.
proof fn lemma_same_positions<T>(
    input: Seq<T>,
    key: spec_fn(T) -> Key,
    a: Seq<T>,
    from_a: Seq<int>,
    b: Seq<T>,
    from_b: Seq<int>,
    n: int,
)
    requires
        sorts_by(input, key, a, from_a),
        sorts_by(input, key, b, from_b),
        0 <= n <= input.len(),
    ensures
        forall|i: int| 0 <= i < n ==> from_a[i] == from_b[i],
    decreases n,
{
    if n > 0 {
        let i = n - 1;
        lemma_same_positions(input, key, a, from_a, b, from_b, i);
        if from_a[i] != from_b[i] {
            lemma_found_later(input, key, a, from_a, b, from_b, i);
            lemma_found_later(input, key, b, from_b, a, from_a, i);
            key_order_is_total(key(input[from_a[i]]), key(input[from_b[i]]), key(input[from_a[i]]));
        }
    }
}

/// Where two orderings first differ, the entry of the one comes later in the other, and so
/// behind the other's entry.
proof fn lemma_found_later<T>(
    input: Seq<T>,
    key: spec_fn(T) -> Key,
    a: Seq<T>,
    from_a: Seq<int>,
    b: Seq<T>,
    from_b: Seq<int>,
    i: int,
)
    requires
        sorts_by(input, key, a, from_a),
        sorts_by(input, key, b, from_b),
        0 <= i < input.len(),
        forall|j: int| 0 <= j < i ==> from_a[j] == from_b[j],
        from_a[i] != from_b[i],
    ensures
        position_before(input, key, from_b[i], from_a[i]),
{
    assert(0 <= from_a[i] < input.len());
    sorting_keeps_every_entry(input, key, b, from_b, from_a[i]);
    let p = choose|p: int| 0 <= p < from_b.len() && from_b[p] == from_a[i];
    if p < i {
        assert(from_a[p] == from_a[i]);
    }
    assert(i < p);
    assert(b[i] == input[from_b[i]]);
    assert(b[p] == input[from_b[p]]);
}

/// Stable sorting leaves no choice: a list has only one ordering by a key.
pub proof fn stable_sort_is_unique<T>(
    input: Seq<T>,
    key: spec_fn(T) -> Key,
    a: Seq<T>,
    b: Seq<T>,
)
    requires
        is_stable_sort(input, key, a),
        is_stable_sort(input, key, b),
    ensures
        a == b,
{
    let from_a = choose|from: Seq<int>| #[trigger] sorts_by(input, key, a, from);
    let from_b = choose|from: Seq<int>| #[trigger] sorts_by(input, key, b, from);
    lemma_same_positions(input, key, a, from_a, b, from_b, input.len() as int);
    assert forall|i: int| 0 <= i < a.len() implies a[i] == b[i] by {
        assert(from_a[i] == from_b[i]);
        assert(a[i] == input[from_a[i]]);
        assert(b[i] == input[from_b[i]]);
    }
    assert(a =~= b);
}

/// Keys are ordered by their rank, then by their first text, then by their second, each as in a
/// dictionary.
pub proof fn keys_are_ordered_by_rank_then_text(a: Key, b: Key)
    ensures
        key_before(a, b) <==> if a.rank != b.rank {
            a.rank < b.rank
        } else if a.first != b.first {
            text_before(a.first, b.first)
        } else {
            text_before(a.second, b.second)
        },
{
    text_order_is_total(a.first, b.first, a.first);
}

/// A list that is in order already stays as it is, and so does one of equal keys.
pub proof fn what_is_in_order_stays<T>(input: Seq<T>, key: spec_fn(T) -> Key, output: Seq<T>)
    requires
        is_stable_sort(input, key, output),
        forall|i: int, j: int|
            0 <= i < j < input.len() ==> !key_before(
                key(#[trigger] input[j]),
                key(#[trigger] input[i]),
            ),
    ensures
        output == input,
{
    let from = Seq::new(input.len(), |i: int| i);
    assert forall|i: int, j: int| 0 <= i < j < input.len() implies #[trigger] from[i]
        != #[trigger] from[j] && (key_before(key(input[i]), key(input[j])) || (key(input[i])
        == key(input[j]) && from[i] < from[j])) by {
        assert(!key_before(key(input[j]), key(input[i])));
        key_order_is_total(key(input[i]), key(input[j]), key(input[i]));
    }
    assert(sorts_by(input, key, input, from));
    stable_sort_is_unique(input, key, output, input);
}

} // verus!
