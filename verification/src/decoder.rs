//! Sequential little-endian reads over an in-memory byte stream.

use vstd::prelude::*;

verus! {

/// Why a read could not be served.
#[derive(Clone, Copy, Debug, PartialEq, Eq, Structural)]
pub enum DecodeError {
    /// Fewer bytes were left than the read asked for.
    Truncated,
}

/// The value of two bytes read as a little-endian unsigned integer.
pub open spec fn u16_le(bytes: Seq<u8>) -> int
    recommends
        bytes.len() >= 2,
{
    bytes[0] + 0x100 * bytes[1]
}

/// The value of four bytes read as a little-endian unsigned integer.
pub open spec fn u32_le(bytes: Seq<u8>) -> int
    recommends
        bytes.len() >= 4,
{
    bytes[0] + 0x100 * bytes[1] + 0x1_0000 * bytes[2] + 0x100_0000 * bytes[3]
}

/// A forward-only cursor over a byte buffer.
///
/// Its view is the input that has not been read yet.
pub struct BinaryDecoder {
    data: Vec<u8>,
    pos: usize,
}

impl View for BinaryDecoder {
    type V = Seq<u8>;

    closed spec fn view(&self) -> Seq<u8> {
        self.data@.skip(self.pos as int)
    }
}

impl BinaryDecoder {
    #[verifier::type_invariant]
    spec fn in_bounds(&self) -> bool {
        self.pos <= self.data.len()
    }

    /// A decoder positioned at the first byte of `data`.
    pub fn new(data: Vec<u8>) -> (decoder: BinaryDecoder)
        ensures
            decoder@ == data@,
    {
        BinaryDecoder { data, pos: 0 }
    }

    /// The number of bytes that have not been read yet.
    pub fn remaining(&self) -> (n: usize)
        ensures
            n == self@.len(),
    {
        proof {
            use_type_invariant(self);
        }
        self.data.len() - self.pos
    }

    /// Moves the cursor over the next `n` bytes and returns where they
    /// start, or moves it to the end when fewer than `n` bytes are left.
    fn advance(&mut self, n: usize) -> (start: Option<usize>)
        ensures
            final(self).data == old(self).data,
            old(self).pos <= old(self).data.len(),
            match start {
                Some(s) => s == old(self).pos && s + n <= old(self).data.len() && final(self).pos
                    == s + n,
                None => old(self).pos + n > old(self).data.len() && final(self).pos == old(
                    self,
                ).data.len(),
            },
    {
        proof {
            use_type_invariant(&*self);
        }
        let start = self.pos;
        if n <= self.data.len() - start {
            self.pos = start + n;
            Some(start)
        } else {
            self.pos = self.data.len();
            None
        }
    }

    /// Discards whatever has not been read yet.
    pub fn skip_rest(&mut self)
        ensures
            final(self)@ == Seq::<u8>::empty(),
    {
        self.pos = self.data.len();
    }

    /// Reads the next `n` bytes.
    ///
    /// When fewer than `n` bytes are left the read fails and the rest of
    /// the input is discarded, so every later read of one byte or more
    /// fails as well.
    pub fn read_bytes(&mut self, n: usize) -> (result: Result<Vec<u8>, DecodeError>)
        ensures
            n <= old(self)@.len() ==> result is Ok && result->Ok_0@ == old(self)@.take(n as int)
                && final(self)@ == old(self)@.skip(n as int),
            n > old(self)@.len() ==> result == Err::<Vec<u8>, DecodeError>(DecodeError::Truncated)
                && final(self)@ == Seq::<u8>::empty(),
    {
        match self.advance(n) {
            Some(start) => {
                let mut out: Vec<u8> = Vec::new();
                let mut i: usize = 0;
                while i < n
                    invariant
                        i <= n,
                        start + n <= self.data.len(),
                        out@ == self.data@.subrange(start as int, start + i),
                    decreases n - i,
                {
                    out.push(self.data[start + i]);
                    i = i + 1;
                }
                Ok(out)
            },
            None => Err(DecodeError::Truncated),
        }
    }

    /// Reads a little-endian 16-bit unsigned integer.
    ///
    /// Fails, discarding the rest of the input, when fewer than two bytes
    /// are left.
    pub fn read_u16(&mut self) -> (result: Result<u16, DecodeError>)
        ensures
            old(self)@.len() >= 2 ==> result is Ok && result->Ok_0 == u16_le(old(self)@)
                && final(self)@ == old(self)@.skip(2),
            old(self)@.len() < 2 ==> result == Err::<u16, DecodeError>(DecodeError::Truncated)
                && final(self)@ == Seq::<u8>::empty(),
    {
        match self.advance(2) {
            Some(start) => {
                let b0: u16 = self.data[start] as u16;
                let b1: u16 = self.data[start + 1] as u16;
                Ok(b0 + 0x100 * b1)
            },
            None => Err(DecodeError::Truncated),
        }
    }

    /// Reads a little-endian 32-bit unsigned integer.
    ///
    /// Fails, discarding the rest of the input, when fewer than four bytes
    /// are left.
    pub fn read_u32(&mut self) -> (result: Result<u32, DecodeError>)
        ensures
            old(self)@.len() >= 4 ==> result is Ok && result->Ok_0 == u32_le(old(self)@)
                && final(self)@ == old(self)@.skip(4),
            old(self)@.len() < 4 ==> result == Err::<u32, DecodeError>(DecodeError::Truncated)
                && final(self)@ == Seq::<u8>::empty(),
    {
        match self.advance(4) {
            Some(start) => {
                let b0: u32 = self.data[start] as u32;
                let b1: u32 = self.data[start + 1] as u32;
                let b2: u32 = self.data[start + 2] as u32;
                let b3: u32 = self.data[start + 3] as u32;
                Ok(b0 + 0x100 * b1 + 0x1_0000 * b2 + 0x100_0000 * b3)
            },
            None => Err(DecodeError::Truncated),
        }
    }

    /// Reads a little-endian single-precision float and returns its bit
    /// pattern, which is the little-endian value of its four bytes.
    ///
    /// Fails, discarding the rest of the input, when fewer than four bytes
    /// are left.
    pub fn read_f32(&mut self) -> (result: Result<u32, DecodeError>)
        ensures
            old(self)@.len() >= 4 ==> result is Ok && result->Ok_0 == u32_le(old(self)@)
                && final(self)@ == old(self)@.skip(4),
            old(self)@.len() < 4 ==> result == Err::<u32, DecodeError>(DecodeError::Truncated)
                && final(self)@ == Seq::<u8>::empty(),
    {
        self.read_u32()
    }
}

} // verus!
