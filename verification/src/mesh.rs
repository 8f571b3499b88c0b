//! The indexed mesh: a table of vertices and facets that point into it.

use crate::decoder::{u32_le, BinaryDecoder};
use crate::facet::{Facet, StlFacet, FACET_RECORD_LEN};
use crate::stl::{
    ascii_mark, binary_facets, declared_facets, facets_of, has_binary_body, is_ascii,
    is_complete, is_readable, lemma_dedup_holds, lemma_dedup_push, lemma_next_record, records,
    soup, unread_after, COUNT_LEN, HEADER_LEN,
};
use crate::vector::Vector3D;
use crate::vertex_map::{dedup, VertexMap};
use vstd::prelude::*;

verus! {

/// What a mesh holds: the vertex table and the facets.
pub struct MeshView {
    pub vertices: Seq<Vector3D>,
    pub facets: Seq<Facet>,
}

/// All three indices of `facet` are positions of a table of `n` vertices.
pub open spec fn in_range(facet: Facet, n: nat) -> bool {
    facet.v1 < n && facet.v2 < n && facet.v3 < n
}

/// `facet` points at the three vertex values of `raw` in `table`.
pub open spec fn points_at(facet: Facet, table: Seq<Vector3D>, raw: StlFacet) -> bool {
    &&& in_range(facet, table.len())
    &&& table[facet.v1 as int] == raw.v1
    &&& table[facet.v2 as int] == raw.v2
    &&& table[facet.v3 as int] == raw.v3
}

impl MeshView {
    /// The mesh without vertices and facets.
    pub open spec fn empty() -> MeshView {
        MeshView { vertices: Seq::empty(), facets: Seq::empty() }
    }

    /// Referential integrity: every index of every facet is a position of
    /// the vertex table.
    pub open spec fn wf(self) -> bool {
        forall|i: int|
            0 <= i < self.facets.len() ==> in_range(
                #[trigger] self.facets[i],
                self.vertices.len(),
            )
    }

    /// The facets are those of `raw`, one for one and in order, each
    /// pointing at the values of its raw facet.
    pub open spec fn indexes(self, raw: Seq<StlFacet>) -> bool {
        &&& self.facets.len() == raw.len()
        &&& forall|i: int|
            0 <= i < raw.len() ==> points_at(#[trigger] self.facets[i], self.vertices, raw[i])
    }

    /// This is the indexed mesh of the raw facets `raw`: the table holds
    /// the distinct vertex values in the order in which the soup first
    /// shows them, and the facets point at their values.
    pub open spec fn is_mesh_of(self, raw: Seq<StlFacet>) -> bool {
        self.vertices == dedup(soup(raw)) && self.indexes(raw)
    }
}

/// Referential integrity: in a mesh whose facets point at the values of
/// raw facets, every index of every facet is a position of the vertex
/// table.
pub proof fn lemma_referential_integrity(mesh: MeshView, raw: Seq<StlFacet>)
    requires
        mesh.indexes(raw),
    ensures
        mesh.wf(),
        forall|i: int|
            0 <= i < mesh.facets.len() ==> (#[trigger] mesh.facets[i]).v1 < mesh.vertices.len()
                && mesh.facets[i].v2 < mesh.vertices.len() && mesh.facets[i].v3
                < mesh.vertices.len(),
{
    assert forall|i: int| 0 <= i < mesh.facets.len() implies in_range(
        #[trigger] mesh.facets[i],
        mesh.vertices.len(),
    ) by {
        assert(points_at(mesh.facets[i], mesh.vertices, raw[i]));
    }
}

/// Raw facets have one indexed mesh and no other.
pub proof fn lemma_mesh_unique(a: MeshView, b: MeshView, raw: Seq<StlFacet>)
    requires
        a.is_mesh_of(raw),
        b.is_mesh_of(raw),
    ensures
        a == b,
{
    lemma_dedup_holds(raw);
    let table = a.vertices;
    assert forall|i: int| 0 <= i < raw.len() implies a.facets[i] == b.facets[i] by {
        let fa = a.facets[i];
        let fb = b.facets[i];
        assert(points_at(fa, table, raw[i]));
        assert(points_at(fb, table, raw[i]));
        assert(table[fa.v1 as int] == table[fb.v1 as int]);
        assert(table[fa.v2 as int] == table[fb.v2 as int]);
        assert(table[fa.v3 as int] == table[fb.v3 as int]);
    }
    assert(a.facets =~= b.facets);
}

/// The count comes back: the mesh of a binary input that declares `n`
/// facets and holds a whole record for each of them has exactly `n`
/// facets.
pub proof fn lemma_facet_count(bytes: Seq<u8>, mesh: MeshView)
    requires
        has_binary_body(bytes),
        bytes.len() >= HEADER_LEN + COUNT_LEN,
        is_complete(bytes.skip(HEADER_LEN as int)),
        mesh.is_mesh_of(facets_of(bytes)),
    ensures
        mesh.facets.len() == u32_le(bytes.skip(HEADER_LEN as int)),
{
}

/// A table of vertices and a list of facets, each facet three positions in
/// the table.
///
/// Every mesh keeps referential integrity: no facet points outside the
/// table.
#[derive(Debug)]
pub struct Mesh {
    vertices: Vec<Vector3D>,
    facets: Vec<Facet>,
}

impl View for Mesh {
    type V = MeshView;

    closed spec fn view(&self) -> MeshView {
        MeshView { vertices: self.vertices@, facets: self.facets@ }
    }
}

impl Mesh {
    #[verifier::type_invariant]
    spec fn integrity(&self) -> bool {
        self@.wf()
    }

    /// The mesh without vertices and facets.
    pub fn new() -> (m: Mesh)
        ensures
            m@ == MeshView::empty(),
    {
        Mesh { vertices: Vec::new(), facets: Vec::new() }
    }

    /// The vertex table.
    pub fn vertices(&self) -> (v: &Vec<Vector3D>)
        ensures
            v@ == self@.vertices,
            self@.wf(),
    {
        proof {
            use_type_invariant(self);
        }
        &self.vertices
    }

    /// The facets.
    pub fn facets(&self) -> (f: &Vec<Facet>)
        ensures
            f@ == self@.facets,
            self@.wf(),
    {
        proof {
            use_type_invariant(self);
        }
        &self.facets
    }

    /// The mesh made of the given table and facets, if no facet points
    /// outside the table.
    pub fn new_from_parts(vertices: Vec<Vector3D>, facets: Vec<Facet>) -> (result: Option<Mesh>)
        ensures
            (MeshView { vertices: vertices@, facets: facets@ }).wf() ==> result is Some
                && result->Some_0@ == (MeshView { vertices: vertices@, facets: facets@ }),
            !(MeshView { vertices: vertices@, facets: facets@ }).wf() ==> result is None,
    {
        let ghost view = MeshView { vertices: vertices@, facets: facets@ };
        let n = vertices.len();
        let mut i: usize = 0;
        while i < facets.len()
            invariant
                i <= facets.len(),
                n == vertices.len(),
                view == (MeshView { vertices: vertices@, facets: facets@ }),
                forall|j: int| 0 <= j < i ==> in_range(#[trigger] view.facets[j], n as nat),
            decreases facets.len() - i,
        {
            let f = facets[i];
            if f.v1 >= n || f.v2 >= n || f.v3 >= n {
                assert(!in_range(view.facets[i as int], view.vertices.len()));
                return None;
            }
            i = i + 1;
        }
        Some(Mesh { vertices, facets })
    }

    /// The mesh in which every vertex position is replaced by what `f`
    /// makes of it. The facets are passed through as they are.
    ///
    /// A map that returns every position unchanged gives the same mesh.
    pub fn map_vertices<F: Fn(Vector3D) -> Vector3D>(self, f: F) -> (m: Mesh)
        requires
            forall|i: int|
                0 <= i < self@.vertices.len() ==> call_requires(f, (#[trigger] self@.vertices[i],)),
        ensures
            m@.facets == self@.facets,
            m@.vertices.len() == self@.vertices.len(),
            forall|i: int|
                0 <= i < self@.vertices.len() ==> call_ensures(
                    f,
                    (self@.vertices[i],),
                    #[trigger] m@.vertices[i],
                ),
            (forall|p: Vector3D, q: Vector3D| call_ensures(f, (p,), q) ==> q == p) ==> m@ == self@,
    {
        proof {
            use_type_invariant(&self);
        }
        let n = self.vertices.len();
        let mut moved: Vec<Vector3D> = Vec::with_capacity(n);
        let mut i: usize = 0;
        while i < n
            invariant
                i <= n,
                n == self@.vertices.len(),
                self@.vertices == self.vertices@,
                moved.len() == i,
                forall|j: int|
                    0 <= j < n ==> call_requires(f, (#[trigger] self@.vertices[j],)),
                forall|j: int|
                    0 <= j < i ==> call_ensures(f, (self@.vertices[j],), #[trigger] moved@[j]),
            decreases n - i,
        {
            moved.push(f(self.vertices[i]));
            i = i + 1;
        }
        proof {
            if forall|p: Vector3D, q: Vector3D| call_ensures(f, (p,), q) ==> q == p {
                assert(moved@ =~= self.vertices@);
            }
            assert forall|j: int| 0 <= j < self.facets@.len() implies in_range(
                #[trigger] self.facets@[j],
                moved@.len(),
            ) by {
                assert(in_range(self@.facets[j], self@.vertices.len()));
            }
        }
        Mesh { vertices: moved, facets: self.facets }
    }

    /// Replaces the three vertex values of every raw facet by their
    /// indices in `vm`.
    fn indexed_vertices(fv: &Vec<StlFacet>, vm: &VertexMap) -> (v: Vec<Facet>)
        requires
            vm.wf(),
            forall|i: int|
                0 <= i < fv.len() ==> vm@.contains((#[trigger] fv[i]).v1) && vm@.contains(fv[i].v2)
                    && vm@.contains(fv[i].v3),
        ensures
            v.len() == fv.len(),
            forall|i: int| 0 <= i < fv.len() ==> points_at(#[trigger] v[i], vm@, fv[i]),
    {
        let mut v: Vec<Facet> = Vec::with_capacity(fv.len());
        let mut i: usize = 0;
        while i < fv.len()
            invariant
                i <= fv.len(),
                vm.wf(),
                forall|j: int|
                    0 <= j < fv.len() ==> vm@.contains((#[trigger] fv[j]).v1) && vm@.contains(
                        fv[j].v2,
                    ) && vm@.contains(fv[j].v3),
                v.len() == i,
                forall|j: int| 0 <= j < i ==> points_at(#[trigger] v[j], vm@, fv[j]),
            decreases fv.len() - i,
        {
            let f = &fv[i];
            let v1 = vm.get(&f.v1);
            let v2 = vm.get(&f.v2);
            let v3 = vm.get(&f.v3);
            v.push(Facet { v1, v2, v3 });
            i = i + 1;
        }
        v
    }

    /// The mesh whose vertex table is that of `vm` and whose facets are
    /// the raw facets `fv` with every vertex value replaced by its index.
    ///
    /// Every vertex of every raw facet must have been added to `vm`.
    pub fn new_from_stl(fv: &Vec<StlFacet>, vm: &VertexMap) -> (m: Mesh)
        requires
            vm.wf(),
            forall|i: int|
                0 <= i < fv.len() ==> vm@.contains((#[trigger] fv[i]).v1) && vm@.contains(fv[i].v2)
                    && vm@.contains(fv[i].v3),
        ensures
            m@.vertices == vm@,
            m@.indexes(fv@),
            m@.wf(),
    {
        let vs = vm.vector();
        let fs = Mesh::indexed_vertices(fv, vm);
        Mesh { vertices: vs, facets: fs }
    }

    /// Whether the bytes begin with the text `solid `.
    fn starts_with_mark(bytes: &[u8]) -> (b: bool)
        ensures
            b == is_ascii(bytes@),
    {
        let b = bytes.len() >= 6 && bytes[0] == 0x73 && bytes[1] == 0x6f && bytes[2] == 0x6c
            && bytes[3] == 0x69 && bytes[4] == 0x64 && bytes[5] == 0x20;
        proof {
            let mark = ascii_mark();
            if b {
                assert(mark =~= bytes@.subrange(0, 6));
            } else if bytes.len() >= 6 {
                let head = bytes@.subrange(0, 6);
                assert(head[0] == bytes[0] && head[1] == bytes[1] && head[2] == bytes[2]
                    && head[3] == bytes[3] && head[4] == bytes[4] && head[5] == bytes[5]);
                assert(mark[0] == 0x73 && mark[1] == 0x6f && mark[2] == 0x6c && mark[3] == 0x69
                    && mark[4] == 0x64 && mark[5] == 0x20);
            }
        }
        b
    }

    /// Whether `read` accepts a decoder over `bytes`: the input has no
    /// binary body, or the body holds every facet record that it
    /// declares.
    pub fn is_readable(bytes: &[u8]) -> (b: bool)
        ensures
            b == is_readable(bytes@),
    {
        if bytes.len() < HEADER_LEN || Mesh::starts_with_mark(bytes) {
            return true;
        }
        let body_len = bytes.len() - HEADER_LEN;
        if body_len < COUNT_LEN {
            return true;
        }
        let b0: u32 = bytes[HEADER_LEN] as u32;
        let b1: u32 = bytes[HEADER_LEN + 1] as u32;
        let b2: u32 = bytes[HEADER_LEN + 2] as u32;
        let b3: u32 = bytes[HEADER_LEN + 3] as u32;
        let count: u32 = b0 + 0x100 * b1 + 0x1_0000 * b2 + 0x100_0000 * b3;
        let whole_records = (body_len - COUNT_LEN) / FACET_RECORD_LEN;
        whole_records >= count as usize
    }

    /// Decodes an STL stream into an indexed mesh.
    ///
    /// A stream with fewer than 80 bytes, or whose header begins with
    /// `solid `, gives the empty mesh. Any other stream is read as binary:
    /// a facet count, taken as zero when it is cut short, and one record
    /// for each facet. A stream that ends before its last declared record
    /// cannot be decoded.
    pub fn read(r: &mut BinaryDecoder) -> (m: Mesh)
        requires
            is_readable(old(r)@),
        ensures
            m@.is_mesh_of(facets_of(old(r)@)),
            m@.wf(),
            final(r)@ == unread_after(old(r)@),
    {
        let header = match r.read_bytes(HEADER_LEN) {
            Ok(h) => h,
            Err(_) => {
                return Mesh::new();
            },
        };
        assert(is_ascii(header@) == is_ascii(old(r)@)) by {
            assert(header@.subrange(0, 6) =~= old(r)@.subrange(0, 6));
        }
        if Mesh::starts_with_mark(header.as_slice()) {
            Mesh::read_ascii(r)
        } else {
            Mesh::read_binary(r)
        }
    }

    /// The ASCII form is recognised and not decoded: the rest of the
    /// input is passed over and the mesh is empty.
    fn read_ascii(r: &mut BinaryDecoder) -> (m: Mesh)
        ensures
            m@ == MeshView::empty(),
            final(r)@ == Seq::<u8>::empty(),
    {
        r.skip_rest();
        Mesh::new()
    }

    /// Decodes a binary body: the facet count, then that many records.
    fn read_binary(r: &mut BinaryDecoder) -> (m: Mesh)
        requires
            is_complete(old(r)@),
        ensures
            m@.is_mesh_of(binary_facets(old(r)@)),
            m@.facets.len() == declared_facets(old(r)@),
            m@.wf(),
            final(r)@ == records(old(r)@).skip(FACET_RECORD_LEN * declared_facets(old(r)@)),
    {
        let ghost body = r@;
        let ghost raw = binary_facets(body);
        let facet_count: u32 = match r.read_u32() {
            Ok(c) => c,
            Err(_) => 0,
        };
        let mut facets: Vec<StlFacet> = Vec::with_capacity(facet_count as usize);
        let mut vertices = VertexMap::new();
        let mut fi: u32 = 0;
        proof {
            assert(facets@ =~= raw.take(0));
        }
        while fi < facet_count
            invariant
                fi <= facet_count,
                is_complete(body),
                facet_count == declared_facets(body),
                raw == binary_facets(body),
                r@ == records(body).skip(FACET_RECORD_LEN * fi),
                facets@ == raw.take(fi as int),
                vertices.wf(),
                vertices@ == dedup(soup(facets@)),
            decreases facet_count - fi,
        {
            proof {
                lemma_next_record(body, fi as int);
                lemma_dedup_push(facets@, raw[fi as int]);
            }
            let f = StlFacet::read(r);
            vertices.add(f.v1);
            vertices.add(f.v2);
            vertices.add(f.v3);
            facets.push(f);
            fi = fi + 1;
        }
        proof {
            assert(raw.take(fi as int) =~= raw);
            lemma_dedup_holds(facets@);
        }
        Mesh::new_from_stl(&facets, &vertices)
    }
}

} // verus!
