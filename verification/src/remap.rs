//! Dense, per-document indices for resource identifiers.

use std::collections::HashMap;
use vstd::prelude::*;

verus! {

broadcast use vstd::std_specs::hash::group_hash_axioms;

/// The identifiers recorded so far, with `id` recorded after them unless it
/// already is among them.
pub open spec fn record(ids: Seq<u32>, id: u32) -> Seq<u32> {
    if ids.contains(id) {
        ids
    } else {
        ids.push(id)
    }
}

/// What a fresh table holds after `input` was recorded from front to back:
/// its distinct identifiers, each at the place of its first occurrence.
pub open spec fn record_all(input: Seq<u32>) -> Seq<u32>
    decreases input.len(),
{
    if input.len() == 0 {
        Seq::empty()
    } else {
        record(record_all(input.drop_last()), input.last())
    }
}

/// The place of the first occurrence of `id` in `ids`; `ids.len()` if there
/// is none.
pub open spec fn position(ids: Seq<u32>, id: u32) -> int
    decreases ids.len(),
{
    if ids.len() == 0 {
        0
    } else if ids[0] == id {
        0
    } else {
        1 + position(ids.drop_first(), id)
    }
}

/// `position` finds `id` where it stands, provided nothing before it equals it.
pub proof fn lemma_position_found(ids: Seq<u32>, k: int)
    requires
        0 <= k < ids.len(),
        forall|j: int| 0 <= j < k ==> #[trigger] ids[j] != ids[k],
    ensures
        position(ids, ids[k]) == k,
    decreases ids.len(),
{
    if k > 0 {
        let rest = ids.drop_first();
        assert forall|j: int| 0 <= j < k - 1 implies #[trigger] rest[j] != rest[k - 1] by {
            assert(rest[j] == ids[j + 1]);
        }
        lemma_position_found(rest, k - 1);
    }
}

/// `position` stays inside `ids` exactly for the identifiers that `ids` holds,
/// and then points at that identifier.
pub proof fn lemma_position_bounds(ids: Seq<u32>, id: u32)
    ensures
        0 <= position(ids, id) <= ids.len(),
        position(ids, id) < ids.len() <==> ids.contains(id),
        position(ids, id) < ids.len() ==> ids[position(ids, id)] == id,
    decreases ids.len(),
{
    if ids.len() > 0 && ids[0] != id {
        let rest = ids.drop_first();
        lemma_position_bounds(rest, id);
        if rest.contains(id) {
            let j = choose|j: int| 0 <= j < rest.len() && rest[j] == id;
            assert(ids[j + 1] == id);
        }
        if ids.contains(id) {
            let j = choose|j: int| 0 <= j < ids.len() && ids[j] == id;
            assert(rest[j - 1] == id);
        }
    } else if ids.len() > 0 {
        assert(ids[0] == id);
    }
}

/// Recording an identifier that is new to `ids` leaves every recorded
/// identifier at its place.
pub proof fn lemma_position_push(ids: Seq<u32>, id: u32, other: u32)
    requires
        ids.contains(other),
    ensures
        position(ids.push(id), other) == position(ids, other),
    decreases ids.len(),
{
    if ids[0] != other {
        let rest = ids.drop_first();
        let j = choose|j: int| 0 <= j < ids.len() && ids[j] == other;
        assert(rest[j - 1] == other);
        assert(ids.push(id).drop_first() =~= rest.push(id));
        lemma_position_push(rest, id, other);
    }
}

/// Recording any input from front to back yields a table in which no
/// identifier stands twice and which holds exactly the identifiers of the
/// input.
pub proof fn lemma_record_all_distinct(input: Seq<u32>)
    ensures
        record_all(input).no_duplicates(),
        forall|id: u32| input.contains(id) <==> record_all(input).contains(id),
    decreases input.len(),
{
    if input.len() > 0 {
        let front = input.drop_last();
        let last = input.last();
        let before = record_all(front);
        let after = record_all(input);
        lemma_record_all_distinct(front);
        assert forall|id: u32| input.contains(id) <==> after.contains(id) by {
            if input.contains(id) {
                let j = choose|j: int| 0 <= j < input.len() && input[j] == id;
                if j < front.len() {
                    assert(front[j] == id);
                    assert(front.contains(id));
                    assert(before.contains(id));
                    let k = choose|k: int| 0 <= k < before.len() && before[k] == id;
                    assert(after[k] == id);
                } else if !before.contains(last) {
                    assert(after[before.len() as int] == id);
                }
            }
            if after.contains(id) {
                let k = choose|k: int| 0 <= k < after.len() && after[k] == id;
                if k < before.len() {
                    assert(before[k] == id);
                    assert(before.contains(id));
                    assert(front.contains(id));
                    let j = choose|j: int| 0 <= j < front.len() && front[j] == id;
                    assert(input[j] == id);
                } else {
                    assert(input[input.len() - 1] == id);
                }
            }
        }
        if !before.contains(last) {
            assert forall|i: int, j: int|
                0 <= i < after.len() && 0 <= j < after.len() && i != j implies after[i]
                != after[j] by {
                if i < before.len() {
                    assert(before.contains(before[i]));
                }
                if j < before.len() {
                    assert(before.contains(before[j]));
                }
            }
        }
    }
}

/// Indices and identifiers correspond one to one: after any input was
/// recorded, the identifier at place `k` has index `k`, and the index of
/// every identifier of the input leads back to that identifier.
pub proof fn lemma_record_all_bijection(input: Seq<u32>)
    ensures
        forall|k: int|
            0 <= k < record_all(input).len() ==> position(
                record_all(input),
                #[trigger] record_all(input)[k],
            ) == k,
        forall|id: u32| #[trigger]
            input.contains(id) ==> 0 <= position(record_all(input), id) < record_all(
                input,
            ).len() && record_all(input)[position(record_all(input), id)] == id,
{
    let table = record_all(input);
    lemma_record_all_distinct(input);
    assert forall|k: int| 0 <= k < table.len() implies position(table, #[trigger] table[k])
        == k by {
        lemma_position_found(table, k);
    }
    assert forall|id: u32| #[trigger] input.contains(id) implies 0 <= position(table, id)
        < table.len() && table[position(table, id)] == id by {
        lemma_position_bounds(table, id);
    }
}

/// Recording an identifier a second time changes nothing: the table, and with
/// it the number of indices, stays as the first recording left it, and so
/// does the index of every identifier recorded before.
pub proof fn lemma_record_idempotent(ids: Seq<u32>, id: u32)
    ensures
        record(record(ids, id), id) == record(ids, id),
        record(record(ids, id), id).len() == record(ids, id).len(),
        forall|other: u32| #[trigger]
            ids.contains(other) ==> position(record(ids, id), other) == position(ids, other),
{
    if !ids.contains(id) {
        assert(ids.push(id)[ids.len() as int] == id);
    }
    assert forall|other: u32| #[trigger] ids.contains(other) implies position(
        record(ids, id),
        other,
    ) == position(ids, other) by {
        if !ids.contains(id) {
            lemma_position_push(ids, id, other);
        }
    }
}

/// Assigns consecutive indices, from zero, to identifiers in the order in
/// which they are first seen.
///
/// The view is the sequence of recorded identifiers: the identifier at place
/// `k` has index `k`.
pub struct Remapper {
    /// From an identifier to its index.
    to_pdf: HashMap<u32, usize>,
    /// From an index back to its identifier.
    to_layout: Vec<u32>,
}

impl View for Remapper {
    type V = Seq<u32>;

    closed spec fn view(&self) -> Seq<u32> {
        self.to_layout@
    }
}

impl Remapper {
    /// The two directions agree, and no identifier is recorded twice. Every
    /// table made by `new` and changed by `insert` is well formed.
    pub closed spec fn wf(&self) -> bool {
        &&& self.to_layout@.no_duplicates()
        &&& forall|k: int|
            0 <= k < self.to_layout@.len() ==> self.to_pdf@.contains_key(
                #[trigger] self.to_layout@[k],
            ) && self.to_pdf@[self.to_layout@[k]] == k
        &&& forall|id: u32| #[trigger]
            self.to_pdf@.contains_key(id) ==> self.to_layout@.contains(id)
    }

    /// A well-formed table holds no identifier twice.
    pub proof fn lemma_distinct(&self)
        requires
            self.wf(),
        ensures
            self@.no_duplicates(),
    {
    }

    /// In a well-formed table the identifier at place `k` has index `k`.
    pub proof fn lemma_round_trip(&self, k: int)
        requires
            self.wf(),
            0 <= k < self@.len(),
        ensures
            position(self@, self@[k]) == k,
    {
        lemma_position_found(self@, k);
    }

    /// An empty table.
    pub fn new() -> (r: Self)
        ensures
            r.wf(),
            r@ == Seq::<u32>::empty(),
    {
        Remapper { to_pdf: HashMap::new(), to_layout: Vec::new() }
    }

    /// The number of distinct identifiers recorded.
    pub fn len(&self) -> (n: usize)
        ensures
            n == self@.len(),
    {
        self.to_layout.len()
    }

    /// Whether `index` was recorded.
    pub fn contains(&self, index: u32) -> (b: bool)
        requires
            self.wf(),
        ensures
            b == self@.contains(index),
    {
        self.to_pdf.contains_key(&index)
    }

    /// Records `index`; does nothing if it was recorded before.
    pub fn insert(&mut self, index: u32)
        requires
            old(self).wf(),
        ensures
            final(self).wf(),
            final(self)@ == record(old(self)@, index),
    {
        if !self.to_pdf.contains_key(&index) {
            let pdf_index: usize = self.to_layout.len();
            self.to_layout.push(index);
            self.to_pdf.insert(index, pdf_index);
            proof {
                let ghost before = old(self).to_layout@;
                assert forall|i: int, j: int|
                    0 <= i < self.to_layout@.len() && 0 <= j < self.to_layout@.len() && i
                        != j implies self.to_layout@[i] != self.to_layout@[j] by {
                    if i < before.len() {
                        assert(before.contains(before[i]));
                    }
                    if j < before.len() {
                        assert(before.contains(before[j]));
                    }
                }
                assert forall|id: u32| #[trigger]
                    self.to_pdf@.contains_key(id) implies self.to_layout@.contains(id) by {
                    if id == index {
                        assert(self.to_layout@[pdf_index as int] == index);
                    } else {
                        let k = choose|k: int| 0 <= k < before.len() && before[k] == id;
                        assert(self.to_layout@[k] == id);
                    }
                }
            }
        }
    }

    /// The index of a recorded identifier.
    pub fn map(&self, index: u32) -> (k: usize)
        requires
            self.wf(),
            self@.contains(index),
        ensures
            k == position(self@, index),
            k < self@.len(),
            self@[k as int] == index,
    {
        let found = self.to_pdf.get(&index);
        proof {
            let j = choose|j: int| 0 <= j < self.to_layout@.len() && self.to_layout@[j] == index;
            assert(self.to_pdf@.contains_key(self.to_layout@[j]));
            lemma_position_found(self.to_layout@, j);
        }
        *found.unwrap()
    }

    /// The indices in use: `0`, `1`, and so on, one for each identifier.
    pub fn pdf_indices(&self) -> (r: Vec<usize>)
        ensures
            r@.len() == self@.len(),
            forall|k: int| 0 <= k < r@.len() ==> r@[k] == k,
    {
        let n: usize = self.to_layout.len();
        let mut out: Vec<usize> = Vec::new();
        let mut k: usize = 0;
        while k < n
            invariant
                k <= n,
                out@.len() == k,
                forall|j: int| 0 <= j < k ==> out@[j] == j,
            decreases n - k,
        {
            out.push(k);
            k += 1;
        }
        out
    }

    /// The recorded identifiers, each at the place of its index.
    pub fn layout_indices(&self) -> (r: Vec<u32>)
        ensures
            r@ == self@,
    {
        self.to_layout.clone()
    }
}

} // verus!
