//! Offset pairs into a byte buffer.

use vstd::prelude::*;

verus! {

/// A half-open range `[start, end)` of byte offsets into a buffer owned by
/// someone else. It stays meaningful while that buffer only grows at its end.
#[derive(Clone, Copy, Debug, PartialEq, Eq, Structural)]
pub struct ByteSlice {
    pub start: usize,
    pub end: usize,
}

impl ByteSlice {
    /// The range lies inside a buffer of `len` bytes.
    pub open spec fn fits(self, len: nat) -> bool {
        self.start <= self.end && self.end <= len
    }

    /// The bytes of `data` that the range covers.
    pub open spec fn of(self, data: Seq<u8>) -> Seq<u8>
        recommends
            self.fits(data.len()),
    {
        data.subrange(self.start as int, self.end as int)
    }

    /// Whether the range lies inside a buffer of `len` bytes.
    pub fn fits_in(&self, len: usize) -> (ok: bool)
        ensures
            ok == self.fits(len as nat),
    {
        self.start <= self.end && self.end <= len
    }
}

} // verus!
