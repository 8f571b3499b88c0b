//! Three-component vectors identified by the bit patterns of their
//! components.

use crate::decoder::{u32_le, BinaryDecoder};
use vstd::prelude::*;

verus! {

/// Bit pattern of the quiet NaN that marks a vector that could not be read.
pub const NAN_BITS: u32 = 0x7fc0_0000;

/// A vector of three single-precision components, each held as its
/// IEEE-754 bit pattern.
///
/// Two vectors are the same vertex exactly when all three bit patterns
/// agree: `0.0` and `-0.0` differ, and a NaN equals itself.
#[derive(Clone, Copy, Debug, PartialEq, Eq, Hash, Structural)]
pub struct Vector3D {
    pub x: u32,
    pub y: u32,
    pub z: u32,
}

impl Vector3D {
    /// The vector with the given component bit patterns.
    pub fn new(x: u32, y: u32, z: u32) -> (v: Vector3D)
        ensures
            v == (Vector3D { x, y, z }),
    {
        Vector3D { x, y, z }
    }

    /// The vector whose components are all the quiet NaN.
    pub open spec fn sentinel() -> Vector3D {
        Vector3D { x: NAN_BITS, y: NAN_BITS, z: NAN_BITS }
    }

    /// The three bit patterns as one 96-bit number, `x` in the highest
    /// place.
    pub open spec fn spec_bits(self) -> int {
        self.x * 0x1_0000_0000_0000_0000 + self.y * 0x1_0000_0000 + self.z
    }

    /// The three bit patterns as one 96-bit number, `x` in the highest
    /// place.
    pub fn bits(&self) -> (b: u128)
        ensures
            b == self.spec_bits(),
    {
        let x: u128 = self.x as u128;
        let y: u128 = self.y as u128;
        let z: u128 = self.z as u128;
        x * 0x1_0000_0000_0000_0000 + y * 0x1_0000_0000 + z
    }

    /// Distinct vectors have distinct 96-bit numbers.
    pub proof fn lemma_bits_injective(a: Vector3D, b: Vector3D)
        requires
            a.spec_bits() == b.spec_bits(),
        ensures
            a == b,
    {
    }

    /// What `read` returns on the unread input `bytes`: the vector made of
    /// the first twelve bytes, or the sentinel when fewer are left.
    pub open spec fn decode(bytes: Seq<u8>) -> Vector3D {
        if bytes.len() >= 12 {
            Vector3D {
                x: u32_le(bytes) as u32,
                y: u32_le(bytes.skip(4)) as u32,
                z: u32_le(bytes.skip(8)) as u32,
            }
        } else {
            Vector3D::sentinel()
        }
    }

    /// Reads `x`, `y` and `z` as three consecutive little-endian floats.
    ///
    /// When any of the three reads fails the result is the NaN sentinel,
    /// and nothing is left of the input.
    pub fn read(r: &mut BinaryDecoder) -> (v: Vector3D)
        ensures
            v == Vector3D::decode(old(r)@),
            old(r)@.len() >= 12 ==> final(r)@ == old(r)@.skip(12),
            old(r)@.len() < 12 ==> final(r)@ == Seq::<u8>::empty(),
    {
        let xr = r.read_f32();
        let yr = r.read_f32();
        let zr = r.read_f32();
        match (xr, yr, zr) {
            (Ok(x), Ok(y), Ok(z)) => Vector3D { x, y, z },
            _ => Vector3D { x: NAN_BITS, y: NAN_BITS, z: NAN_BITS },
        }
    }
}

} // verus!
