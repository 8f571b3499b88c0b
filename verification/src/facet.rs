//! Facet records: the raw triangle of an STL file and the indexed triangle
//! of a mesh.

use crate::decoder::{u16_le, BinaryDecoder};
use crate::vector::Vector3D;
use vstd::prelude::*;

verus! {

/// Length in bytes of one facet record: four vectors and the attribute
/// word.
pub const FACET_RECORD_LEN: usize = 50;

/// One triangle as a binary STL file stores it.
#[derive(Clone, Copy, Debug, PartialEq, Eq, Hash, Structural)]
pub struct StlFacet {
    /// The normal, kept as read.
    pub n: Vector3D,
    pub v1: Vector3D,
    pub v2: Vector3D,
    pub v3: Vector3D,
    /// The attribute byte count, carried through and never interpreted.
    pub abc: u16,
}

/// One triangle of an indexed mesh: three positions in the vertex table.
#[derive(Clone, Copy, Debug, PartialEq, Eq, Hash, Structural)]
pub struct Facet {
    pub v1: usize,
    pub v2: usize,
    pub v3: usize,
}

impl StlFacet {
    /// The facet held by the first fifty bytes of `bytes`.
    pub open spec fn decode(bytes: Seq<u8>) -> StlFacet
        recommends
            bytes.len() >= FACET_RECORD_LEN,
    {
        StlFacet {
            n: Vector3D::decode(bytes),
            v1: Vector3D::decode(bytes.skip(12)),
            v2: Vector3D::decode(bytes.skip(24)),
            v3: Vector3D::decode(bytes.skip(36)),
            abc: u16_le(bytes.skip(48)) as u16,
        }
    }

    /// Reads the normal, the three vertices and the attribute word.
    ///
    /// A whole record must be left: a missing attribute word is not
    /// recoverable.
    pub fn read(r: &mut BinaryDecoder) -> (f: StlFacet)
        requires
            old(r)@.len() >= FACET_RECORD_LEN,
        ensures
            f == StlFacet::decode(old(r)@),
            final(r)@ == old(r)@.skip(FACET_RECORD_LEN as int),
    {
        let n = Vector3D::read(r);
        let v1 = Vector3D::read(r);
        let v2 = Vector3D::read(r);
        let v3 = Vector3D::read(r);
        let abc = r.read_u16().unwrap();
        StlFacet { n, v1, v2, v3, abc }
    }
}

} // verus!
