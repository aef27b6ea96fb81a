//! The vertex buffer of a frame, in which each distinct vertex is stored once.
use vstd::prelude::*;

use crate::geometry::Vertex;
use crate::maps::{
    vertex_slot_entries, vertex_slots_clear, vertex_slots_get, vertex_slots_insert,
    vertex_slots_new, VertexSlotMap,
};

verus! {

/// The largest number of vertices a frame holds: a vertex is addressed by a
/// `u16` index.
pub const MAX_VERTICES: usize = 65536;

/// `s` holds no vertex twice.
pub open spec fn distinct(s: Seq<Vertex>) -> bool {
    forall|i: int, j: int| 0 <= i < s.len() && 0 <= j < s.len() && i != j ==> s[i] != s[j]
}

/// The buffer `s` after asking for `v`: unchanged when it holds `v`
/// already, else with `v` appended.
pub open spec fn with_vertex(s: Seq<Vertex>, v: Vertex) -> Seq<Vertex> {
    if s.contains(v) {
        s
    } else {
        s.push(v)
    }
}

/// The buffer `s` after asking for each vertex of `vs` in turn.
pub open spec fn with_vertices(s: Seq<Vertex>, vs: Seq<Vertex>) -> Seq<Vertex>
    decreases vs.len(),
{
    if vs.len() == 0 {
        s
    } else {
        with_vertex(with_vertices(s, vs.drop_last()), vs.last())
    }
}

/// Asking for vertices only ever appends: the buffer before is a prefix of
/// the buffer after.
pub proof fn lemma_with_vertices_extends(s: Seq<Vertex>, vs: Seq<Vertex>)
    ensures
        with_vertices(s, vs).len() >= s.len(),
        with_vertices(s, vs).subrange(0, s.len() as int) == s,
    decreases vs.len(),
{
    if vs.len() > 0 {
        lemma_with_vertices_extends(s, vs.drop_last());
        let before = with_vertices(s, vs.drop_last());
        assert(with_vertices(s, vs).subrange(0, s.len() as int) =~= before.subrange(
            0,
            s.len() as int,
        ));
    }
}

/// Asking for a prefix of `vs` gives a prefix of what asking for all of
/// `vs` gives.
pub proof fn lemma_with_vertices_prefix(s: Seq<Vertex>, vs: Seq<Vertex>, n: int)
    requires
        0 <= n <= vs.len(),
    ensures
        with_vertices(s, vs.take(n)).len() <= with_vertices(s, vs).len(),
        with_vertices(s, vs).subrange(0, with_vertices(s, vs.take(n)).len() as int)
            == with_vertices(s, vs.take(n)),
    decreases vs.len(),
{
    if n == vs.len() {
        assert(vs.take(n) =~= vs);
        assert(with_vertices(s, vs).subrange(0, with_vertices(s, vs).len() as int) =~= with_vertices(s, vs));
    } else {
        assert(vs.drop_last().take(n) =~= vs.take(n));
        lemma_with_vertices_prefix(s, vs.drop_last(), n);
        let mid = with_vertices(s, vs.drop_last());
        let short = with_vertices(s, vs.take(n));
        assert(with_vertices(s, vs).subrange(0, short.len() as int) =~= mid.subrange(
            0,
            short.len() as int,
        ));
    }
}

/// Asking for one more vertex of `vs` extends the buffer by that vertex.
pub proof fn lemma_with_vertices_step(s: Seq<Vertex>, vs: Seq<Vertex>, n: int)
    requires
        0 <= n < vs.len(),
    ensures
        with_vertices(s, vs.take(n + 1)) == with_vertex(with_vertices(s, vs.take(n)), vs[n]),
{
    assert(vs.take(n + 1).drop_last() =~= vs.take(n));
}

/// A buffer that holds no vertex twice keeps that property as vertices are
/// asked for, and then holds every vertex asked for.
pub proof fn lemma_with_vertices_distinct(s: Seq<Vertex>, vs: Seq<Vertex>)
    requires
        distinct(s),
    ensures
        distinct(with_vertices(s, vs)),
        forall|i: int| 0 <= i < vs.len() ==> with_vertices(s, vs).contains(#[trigger] vs[i]),
        forall|i: int| 0 <= i < s.len() ==> with_vertices(s, vs).contains(#[trigger] s[i]),
    decreases vs.len(),
{
    if vs.len() > 0 {
        let before = with_vertices(s, vs.drop_last());
        lemma_with_vertices_distinct(s, vs.drop_last());
        let after = with_vertices(s, vs);
        assert forall|i: int| 0 <= i < vs.len() implies after.contains(#[trigger] vs[i]) by {
            if i < vs.len() - 1 {
                assert(vs.drop_last()[i] == vs[i]);
                assert(before.contains(vs[i]));
                let k = choose|k: int| 0 <= k < before.len() && before[k] == vs[i];
                assert(after[k] == vs[i]);
            } else {
                if !before.contains(vs.last()) {
                    assert(after[before.len() as int] == vs[i]);
                }
            }
        }
        assert forall|i: int| 0 <= i < s.len() implies after.contains(#[trigger] s[i]) by {
            assert(before.contains(s[i]));
            let k = choose|k: int| 0 <= k < before.len() && before[k] == s[i];
            assert(after[k] == s[i]);
        }
    }
}

/// How many vertices of `vs` the buffer `s` gains when they are asked for:
/// those neither stored nor asked for before.
pub open spec fn fresh_count(s: Seq<Vertex>, vs: Seq<Vertex>) -> nat
    decreases vs.len(),
{
    if vs.len() == 0 {
        0
    } else {
        fresh_count(s, vs.drop_last()) + if s.contains(vs.last()) || vs.drop_last().contains(
            vs.last(),
        ) {
            0nat
        } else {
            1nat
        }
    }
}

/// After asking for `vs`, the buffer holds exactly what it held and what
/// was asked for, and has grown by the fresh vertices.
pub proof fn lemma_with_vertices_count(s: Seq<Vertex>, vs: Seq<Vertex>)
    ensures
        with_vertices(s, vs).len() == s.len() + fresh_count(s, vs),
        forall|v: Vertex| #[trigger] with_vertices(s, vs).contains(v) <==> s.contains(v) || vs.contains(v),
    decreases vs.len(),
{
    if vs.len() > 0 {
        let rest = vs.drop_last();
        lemma_with_vertices_count(s, rest);
        let before = with_vertices(s, rest);
        let after = with_vertices(s, vs);
        assert forall|v: Vertex| #[trigger] after.contains(v) <==> s.contains(v) || vs.contains(v) by {
            if vs.contains(v) && !s.contains(v) {
                let i = choose|i: int| 0 <= i < vs.len() && vs[i] == v;
                if i < vs.len() - 1 {
                    assert(rest[i] == v);
                    assert(before.contains(v));
                    let k = choose|k: int| 0 <= k < before.len() && before[k] == v;
                    assert(after[k] == v);
                } else if !before.contains(v) {
                    assert(after[before.len() as int] == v);
                }
            }
            if after.contains(v) {
                let k = choose|k: int| 0 <= k < after.len() && after[k] == v;
                if k < before.len() {
                    assert(before[k] == v);
                    assert(before.contains(v));
                    if rest.contains(v) {
                        let i = choose|i: int| 0 <= i < rest.len() && rest[i] == v;
                        assert(vs[i] == v);
                    }
                } else {
                    assert(vs[vs.len() - 1] == v);
                }
            }
            if s.contains(v) {
                assert(before.contains(v));
                let k = choose|k: int| 0 <= k < before.len() && before[k] == v;
                assert(after[k] == v);
            }
        }
    }
}

/// The vertices of a frame, each stored once, with a map from each vertex
/// to its slot.
pub struct VertexCollection {
    pub(crate) vertices: Vec<Vertex>,
    pub(crate) vertex_index_by_id: VertexSlotMap,
}

impl View for VertexCollection {
    type V = Seq<Vertex>;

    closed spec fn view(&self) -> Seq<Vertex> {
        self.vertices@
    }
}

impl VertexCollection {
    /// The map holds exactly the stored vertices, each at its slot, and the
    /// slots fit in a `u16`.
    pub closed spec fn wf(&self) -> bool {
        let slots = vertex_slot_entries(self.vertex_index_by_id);
        &&& self.vertices.len() <= MAX_VERTICES
        &&& forall|i: int|
            0 <= i < self.vertices.len() ==> #[trigger] slots.dom().contains(self.vertices@[i].key())
                && slots[self.vertices@[i].key()] == i
        &&& forall|k|
            #[trigger] slots.dom().contains(k) ==> slots[k] < self.vertices.len()
                && self.vertices@[slots[k] as int].key() == k
    }

    /// A well-formed collection holds no vertex twice.
    pub proof fn lemma_distinct(&self)
        requires
            self.wf(),
        ensures
            distinct(self@),
            self@.len() <= MAX_VERTICES,
    {
        let slots = vertex_slot_entries(self.vertex_index_by_id);
        assert forall|i: int, j: int|
            0 <= i < self@.len() && 0 <= j < self@.len() && i != j implies self@[i] != self@[j] by {
            if self@[i] == self@[j] {
                assert(slots.dom().contains(self.vertices@[i].key()));
                assert(slots.dom().contains(self.vertices@[j].key()));
            }
        }
    }

    /// An empty collection.
    pub fn new() -> (c: Self)
        ensures
            c.wf(),
            c@ == Seq::<Vertex>::empty(),
    {
        VertexCollection { vertices: Vec::new(), vertex_index_by_id: vertex_slots_new() }
    }

    /// Forgets every vertex.
    pub fn clear(&mut self)
        ensures
            final(self).wf(),
            final(self)@ == Seq::<Vertex>::empty(),
    {
        self.vertices.clear();
        vertex_slots_clear(&mut self.vertex_index_by_id);
    }

    /// The number of stored vertices.
    pub fn len(&self) -> (n: usize)
        ensures
            n == self@.len(),
    {
        self.vertices.len()
    }

    /// Whether `vertex` is stored.
    pub fn contains(&self, vertex: &Vertex) -> (stored: bool)
        requires
            self.wf(),
        ensures
            stored == self@.contains(*vertex),
    {
        let key = vertex.slot_key();
        match vertex_slots_get(&self.vertex_index_by_id, &key) {
            Some(index) => {
                proof {
                    crate::geometry::lemma_key_injective(self.vertices@[index as int], *vertex);
                }
                true
            },
            None => {
                proof {
                    let slots = vertex_slot_entries(self.vertex_index_by_id);
                    if self@.contains(*vertex) {
                        let i = choose|i: int| 0 <= i < self@.len() && self@[i] == *vertex;
                        assert(slots.dom().contains(self.vertices@[i].key()));
                    }
                }
                false
            },
        }
    }

    /// The number of vertices of `vs` that asking for them would store.
    pub fn fresh_count(&self, vs: &[Vertex]) -> (count: usize)
        requires
            self.wf(),
        ensures
            count == fresh_count(self@, vs@),
    {
        let mut count: usize = 0;
        let n = vs.len();
        for i in 0..n
            invariant
                n == vs@.len(),
                self.wf(),
                count == fresh_count(self@, vs@.take(i as int)),
                count <= i,
        {
            let mut seen = self.contains(&vs[i]);
            let mut j: usize = 0;
            while j < i && !seen
                invariant
                    j <= i < n,
                    n == vs@.len(),
                    seen == (self@.contains(vs@[i as int]) || vs@.take(j as int).contains(vs@[i as int])),
                decreases i - j,
            {
                if vs[j] == vs[i] {
                    assert(vs@.take(j as int + 1)[j as int] == vs@[i as int]);
                    seen = true;
                } else {
                    proof {
                        let x = vs@[i as int];
                        let p1 = vs@.take(j as int + 1);
                        let p0 = vs@.take(j as int);
                        if p1.contains(x) {
                            let k = choose|k: int| 0 <= k < p1.len() && p1[k] == x;
                            assert(p0[k] == x);
                        }
                        if p0.contains(x) {
                            let k = choose|k: int| 0 <= k < p0.len() && p0[k] == x;
                            assert(p1[k] == x);
                        }
                    }
                }
                j = j + 1;
            }
            proof {
                let prefix = vs@.take(i as int + 1);
                assert(prefix.drop_last() =~= vs@.take(i as int));
                assert(prefix.last() == vs@[i as int]);
                if !seen {
                    assert(j == i);
                }
                let x = vs@[i as int];
                let pj = vs@.take(j as int);
                let pi = vs@.take(i as int);
                if pj.contains(x) {
                    let k = choose|k: int| 0 <= k < pj.len() && pj[k] == x;
                    assert(pi[k] == x);
                }
            }
            if !seen {
                count = count + 1;
            }
        }
        proof {
            assert(vs@.take(n as int) =~= vs@);
        }
        count
    }

    /// The stored vertices, in slot order.
    pub fn as_slice(&self) -> (vertices: &[Vertex])
        ensures
            vertices@ == self@,
    {
        self.vertices.as_slice()
    }

    /// The slot of `vertex`, storing it first when it is not stored yet.
    pub fn get_or_insert(&mut self, vertex: Vertex) -> (index: u16)
        requires
            old(self).wf(),
            old(self)@.contains(vertex) || old(self)@.len() < MAX_VERTICES,
        ensures
            final(self).wf(),
            final(self)@ == with_vertex(old(self)@, vertex),
            index < final(self)@.len(),
            final(self)@[index as int] == vertex,
    {
        let key = vertex.slot_key();
        match vertex_slots_get(&self.vertex_index_by_id, &key) {
            Some(index) => {
                proof {
                    let slots = vertex_slot_entries(self.vertex_index_by_id);
                    assert(slots.dom().contains(key));
                    crate::geometry::lemma_key_injective(self.vertices@[index as int], vertex);
                    assert(self@.contains(vertex));
                }
                index
            },
            None => {
                proof {
                    let slots = vertex_slot_entries(self.vertex_index_by_id);
                    if self@.contains(vertex) {
                        let i = choose|i: int| 0 <= i < self@.len() && self@[i] == vertex;
                        assert(slots.dom().contains(self.vertices@[i].key()));
                    }
                }
                let index = self.vertices.len() as u16;
                let ghost old_slots = vertex_slot_entries(self.vertex_index_by_id);
                self.vertices.push(vertex);
                vertex_slots_insert(&mut self.vertex_index_by_id, key, index);
                proof {
                    let slots = vertex_slot_entries(self.vertex_index_by_id);
                    assert forall|i: int|
                        0 <= i < self.vertices.len() implies #[trigger] slots.dom().contains(
                        self.vertices@[i].key(),
                    ) && slots[self.vertices@[i].key()] == i by {
                        if i < self.vertices.len() - 1 {
                            assert(old_slots.dom().contains(self.vertices@[i].key()));
                        }
                    }
                    assert forall|k| #[trigger] slots.dom().contains(k) implies slots[k]
                        < self.vertices.len() && self.vertices@[slots[k] as int].key() == k by {
                        if k != key {
                            assert(old_slots.dom().contains(k));
                        }
                    }
                }
                index
            },
        }
    }
}

} // verus!
