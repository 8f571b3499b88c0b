//! Canonical vertex indices.

use crate::vector::Vector3D;
use std::collections::HashMap;
use vstd::prelude::*;

verus! {

/// The vertex table after `vertex` was added to the table `table`, and the
/// index that the vertex has in it.
pub open spec fn spec_add(table: Seq<Vector3D>, vertex: Vector3D) -> (Seq<Vector3D>, int) {
    if table.contains(vertex) {
        (table, table.index_of(vertex))
    } else {
        (table.push(vertex), table.len() as int)
    }
}

/// The vertex table after the values of `vertices` were added to `table`
/// one after the other.
pub open spec fn spec_add_all(table: Seq<Vector3D>, vertices: Seq<Vector3D>) -> Seq<Vector3D>
    decreases vertices.len(),
{
    if vertices.len() == 0 {
        table
    } else {
        spec_add(spec_add_all(table, vertices.drop_last()), vertices.last()).0
    }
}

/// The indices that those additions return, in the order of the calls.
pub open spec fn spec_add_indices(table: Seq<Vector3D>, vertices: Seq<Vector3D>) -> Seq<int>
    decreases vertices.len(),
{
    if vertices.len() == 0 {
        Seq::empty()
    } else {
        spec_add_indices(table, vertices.drop_last()).push(
            spec_add(spec_add_all(table, vertices.drop_last()), vertices.last()).1,
        )
    }
}

/// The distinct values of `vertices`, each at the place of its first
/// occurrence among the distinct values.
pub open spec fn dedup(vertices: Seq<Vector3D>) -> Seq<Vector3D> {
    spec_add_all(Seq::empty(), vertices)
}

/// Adding a vertex keeps the table free of duplicates, keeps every entry
/// at its index, and returns an index at which the table holds the vertex.
pub proof fn lemma_add(table: Seq<Vector3D>, vertex: Vector3D)
    requires
        table.no_duplicates(),
    ensures
        spec_add(table, vertex).0.no_duplicates(),
        spec_add(table, vertex).0.len() >= table.len(),
        spec_add(table, vertex).0.take(table.len() as int) == table,
        0 <= spec_add(table, vertex).1 < spec_add(table, vertex).0.len(),
        spec_add(table, vertex).0[spec_add(table, vertex).1] == vertex,
        forall|v: Vector3D|
            spec_add(table, vertex).0.contains(v) <==> table.contains(v) || v == vertex,
{
    let after = spec_add(table, vertex).0;
    if table.contains(vertex) {
        assert(after.take(table.len() as int) =~= table);
    } else {
        assert(after.take(table.len() as int) =~= table);
        assert(after[table.len() as int] == vertex);
        assert forall|v: Vector3D| after.contains(v) <==> table.contains(v) || v == vertex by {
            if table.contains(v) {
                let i = table.index_of(v);
                assert(after[i] == v);
            }
            if after.contains(v) {
                let i = after.index_of(v);
                if i < table.len() {
                    assert(table[i] == v);
                }
            }
        }
    }
}

/// Idempotence: adding a vertex a second time returns the index that the
/// first call returned, and the table, so also its length, stays as the
/// first call left it.
pub proof fn lemma_add_idempotent(table: Seq<Vector3D>, vertex: Vector3D)
    requires
        table.no_duplicates(),
    ensures
        spec_add(spec_add(table, vertex).0, vertex).1 == spec_add(table, vertex).1,
        spec_add(spec_add(table, vertex).0, vertex).0 == spec_add(table, vertex).0,
        spec_add(spec_add(table, vertex).0, vertex).0.len() == spec_add(table, vertex).0.len(),
{
    lemma_add(table, vertex);
    let once = spec_add(table, vertex);
    assert(once.0.contains(vertex));
    let again = spec_add(once.0, vertex);
    assert(once.0[again.1] == vertex);
}

/// After a run of additions the table has no duplicates, begins with the
/// table before the run, and holds exactly the old entries and the added
/// values.
pub proof fn lemma_add_all(table: Seq<Vector3D>, vertices: Seq<Vector3D>)
    requires
        table.no_duplicates(),
    ensures
        spec_add_all(table, vertices).no_duplicates(),
        spec_add_all(table, vertices).len() >= table.len(),
        spec_add_all(table, vertices).take(table.len() as int) == table,
        forall|v: Vector3D|
            spec_add_all(table, vertices).contains(v) <==> table.contains(v) || vertices.contains(
                v,
            ),
    decreases vertices.len(),
{
    if vertices.len() == 0 {
        assert(table.take(table.len() as int) =~= table);
    } else {
        let front = vertices.drop_last();
        let last = vertices.last();
        lemma_add_all(table, front);
        let before = spec_add_all(table, front);
        lemma_add(before, last);
        let after = spec_add(before, last).0;
        assert(after.take(table.len() as int) =~= before.take(before.len() as int).take(
            table.len() as int,
        ));
        assert(before.take(table.len() as int) =~= before.take(before.len() as int).take(
            table.len() as int,
        )) by {
            assert(before.take(before.len() as int) =~= before);
        }
        assert forall|v: Vector3D|
            after.contains(v) <==> table.contains(v) || vertices.contains(v) by {
            if front.contains(v) {
                let i = front.index_of(v);
                assert(vertices[i] == v);
            }
            if vertices.contains(v) {
                let i = vertices.index_of(v);
                if i < front.len() {
                    assert(front[i] == v);
                }
            }
        }
    }
}

/// Adding one more value after a run is one more step of the run.
pub proof fn lemma_add_all_push(table: Seq<Vector3D>, vertices: Seq<Vector3D>, vertex: Vector3D)
    ensures
        spec_add_all(table, vertices.push(vertex)) == spec_add(
            spec_add_all(table, vertices),
            vertex,
        ).0,
{
    assert(vertices.push(vertex).drop_last() =~= vertices);
}

/// In `vertices` the value `a` occurs at a place before which, and at
/// which, `b` does not occur.
pub open spec fn seen_before(vertices: Seq<Vector3D>, a: Vector3D, b: Vector3D) -> bool {
    exists|p: int|
        0 <= p < vertices.len() && #[trigger] vertices[p] == a && forall|q: int|
            0 <= q <= p ==> #[trigger] vertices[q] != b
}

/// First-seen order: of two entries of the table, the one with the lower
/// index was seen first among the added values.
pub proof fn lemma_first_seen_order(vertices: Seq<Vector3D>, i: int, j: int)
    requires
        0 <= i < j < dedup(vertices).len(),
    ensures
        seen_before(vertices, dedup(vertices)[i], dedup(vertices)[j]),
    decreases vertices.len(),
{
    let table = dedup(vertices);
    if vertices.len() > 0 {
        let front = vertices.drop_last();
        let before = dedup(front);
        lemma_add_all(Seq::empty(), front);
        lemma_add(before, vertices.last());
        assert(before =~= table.take(before.len() as int));
        if j < before.len() {
            lemma_first_seen_order(front, i, j);
            let p = choose|p: int|
                0 <= p < front.len() && #[trigger] front[p] == before[i] && forall|q: int|
                    0 <= q <= p ==> #[trigger] front[q] != before[j];
            assert(vertices[p] == table[i]);
            assert forall|q: int| 0 <= q <= p implies #[trigger] vertices[q] != table[j] by {
                assert(front[q] != before[j]);
            }
        } else {
            assert(table[j] == vertices.last());
            assert(!before.contains(vertices.last()));
            assert(before[i] == table[i]);
            assert(before.contains(table[i]));
            assert(front.contains(table[i]));
            let p = front.index_of(table[i]);
            assert(vertices[p] == table[i]);
            assert forall|q: int| 0 <= q <= p implies #[trigger] vertices[q] != table[j] by {
                if vertices[q] == table[j] {
                    assert(front[q] == vertices.last());
                    assert(front.contains(vertices.last()));
                }
            }
        }
    }
}

/// Index contiguity: when `vertices` are added to an empty table, in any
/// order and with any repeats, the indices returned are exactly the
/// numbers from 0 up to, and without, the number of distinct values, which
/// is also the length of the table.
pub proof fn lemma_indices_contiguous(vertices: Seq<Vector3D>)
    ensures
        spec_add_indices(Seq::empty(), vertices).to_set() == Set::new(
            |i: int| 0 <= i < vertices.to_set().len(),
        ),
        dedup(vertices).len() == vertices.to_set().len(),
    decreases vertices.len(),
{
    let empty = Seq::<Vector3D>::empty();
    let table = dedup(vertices);
    let indices = spec_add_indices(empty, vertices);
    lemma_add_all(empty, vertices);
    assert(table.to_set() =~= vertices.to_set());
    table.unique_seq_to_set();
    if vertices.len() == 0 {
        assert(indices.to_set() =~= Set::new(|i: int| 0 <= i < vertices.to_set().len()));
    } else {
        let front = vertices.drop_last();
        let last = vertices.last();
        lemma_indices_contiguous(front);
        lemma_add_all(empty, front);
        let before = dedup(front);
        lemma_add(before, last);
        let idx = spec_add(before, last).1;
        let earlier = spec_add_indices(empty, front);
        assert(indices == earlier.push(idx));
        assert forall|i: int| indices.contains(i) <==> 0 <= i < table.len() by {
            if indices.contains(i) {
                let j = indices.index_of(i);
                if j < earlier.len() {
                    assert(earlier[j] == i);
                    assert(earlier.to_set().contains(i));
                }
            }
            if 0 <= i < table.len() {
                if i == idx {
                    assert(indices[earlier.len() as int] == i);
                } else {
                    assert(i < before.len());
                    assert(earlier.to_set().contains(i));
                    let j = earlier.index_of(i);
                    assert(indices[j] == i);
                }
            }
        }
        assert(indices.to_set() =~= Set::new(|i: int| 0 <= i < vertices.to_set().len()));
    }
}

/// Assigns every distinct vertex value one index, in the order in which
/// the values were first seen.
///
/// Its view is the vertex table: the value at position `i` is the vertex
/// with index `i`. No value occurs twice in it.
pub struct VertexMap {
    index: HashMap<u128, usize>,
    order: Vec<Vector3D>,
}

impl View for VertexMap {
    type V = Seq<Vector3D>;

    closed spec fn view(&self) -> Seq<Vector3D> {
        self.order@
    }
}

impl VertexMap {
    /// The hash index and the table describe the same assignment.
    pub closed spec fn indexed(&self) -> bool {
        &&& forall|i: int|
            0 <= i < self.order@.len() ==> {
                let k = (#[trigger] self.order@[i]).spec_bits() as u128;
                self.index@.contains_key(k) && self.index@[k] == i
            }
        &&& forall|k: u128| #[trigger]
            self.index@.contains_key(k) ==> self.index@[k] < self.order@.len()
                && self.order@[self.index@[k] as int].spec_bits() == k
    }

    /// Validity: no vertex value has two indices.
    pub open spec fn wf(&self) -> bool {
        self@.no_duplicates() && self.indexed()
    }

    /// An empty table.
    pub fn new() -> (m: VertexMap)
        ensures
            m.wf(),
            m@ == Seq::<Vector3D>::empty(),
    {
        VertexMap { index: HashMap::new(), order: Vec::new() }
    }

    /// The number of distinct vertices added so far.
    pub fn len(&self) -> (n: usize)
        requires
            self.wf(),
        ensures
            n == self@.len(),
    {
        self.order.len()
    }

    /// The index of a vertex that has been added before.
    pub fn get(&self, v3d: &Vector3D) -> (idx: usize)
        requires
            self.wf(),
            self@.contains(*v3d),
        ensures
            idx == self@.index_of(*v3d),
            idx < self@.len(),
            self@[idx as int] == *v3d,
    {
        let k = v3d.bits();
        proof {
            let i = self@.index_of(*v3d);
            assert(self.order@[i] == *v3d);
        }
        *self.index.get(&k).unwrap()
    }

    /// Returns the index of `vertex`, giving it the next free index when
    /// it has none yet.
    pub fn add(&mut self, vertex: Vector3D) -> (idx: usize)
        requires
            old(self).wf(),
        ensures
            final(self).wf(),
            (final(self)@, idx as int) == spec_add(old(self)@, vertex),
            idx < final(self)@.len(),
            final(self)@[idx as int] == vertex,
    {
        let k = vertex.bits();
        if self.index.contains_key(&k) {
            let idx = *self.index.get(&k).unwrap();
            proof {
                Vector3D::lemma_bits_injective(self.order@[idx as int], vertex);
            }
            idx
        } else {
            let idx = self.order.len();
            self.index.insert(k, idx);
            self.order.push(vertex);
            proof {
                assert forall|i: int| 0 <= i < old(self).order@.len() implies old(self).order@[i]
                    != vertex by {
                    let ki = old(self).order@[i].spec_bits() as u128;
                    assert(old(self).index@.contains_key(ki));
                }
                assert forall|i: int, j: int|
                    0 <= i < self.order@.len() && 0 <= j < self.order@.len() && i
                        != j implies self.order@[i] != self.order@[j] by {
                    if i < idx && j < idx {
                        assert(old(self).order@[i] != old(self).order@[j]);
                    }
                }
            }
            idx
        }
    }

    /// The vertex table: position `i` holds the vertex with index `i`.
    pub fn vector(&self) -> (v: Vec<Vector3D>)
        requires
            self.wf(),
        ensures
            v@ == self@,
    {
        self.order.clone()
    }
}

} // verus!
