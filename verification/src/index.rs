//! The vector index type: names one slot (one thread's coordinate) of a
//! vector clock.

use vstd::prelude::*;

verus! {

/// A vector clock index. It is usually associated with one thread id,
/// though a caller may reuse an index for another thread once no causal
/// relationship can be lost; the clock type itself only addresses by
/// index.
///
/// The value `u32::MAX` is reserved as an "invalid"/"unassigned" sentinel
/// (see [`VectorIdx::max_index`]); valid in-use indices are strictly
/// below it.
#[derive(Clone, Copy, Debug, PartialEq, Eq, Structural, PartialOrd, Ord, Hash)]
pub struct VectorIdx(pub u32);

impl VectorIdx {
    /// The raw integer value naming this index.
    pub fn to_u32(self) -> (r: u32)
        ensures
            r == self.0,
    {
        self.0
    }

    /// Construct an index from a zero-based array position.
    /// The position must fit in 32 bits: a wider value is a caller error
    /// and is rejected up front rather than silently truncated.
    pub fn new(idx: usize) -> (r: Self)
        requires
            idx <= u32::MAX,
        ensures
            r.0 == idx,
    {
        VectorIdx(idx as u32)
    }

    /// The zero-based array position this index names; agrees exactly
    /// with [`VectorIdx::to_u32`] on every value.
    pub fn index(self) -> (r: usize)
        ensures
            r == self.0,
    {
        self.0 as usize
    }

    /// The reserved maximum sentinel, distinguishable from every valid
    /// in-use index; callers use it for "no index".
    pub fn max_index() -> (r: Self)
        ensures
            r.0 == u32::MAX,
    {
        VectorIdx(u32::MAX)
    }
}

impl From<u32> for VectorIdx {
    fn from(id: u32) -> (r: Self)
        ensures
            r.0 == id,
    {
        VectorIdx(id)
    }
}

impl vstd::std_specs::convert::FromSpecImpl<u32> for VectorIdx {
    open spec fn obeys_from_spec() -> bool {
        true
    }

    open spec fn from_spec(id: u32) -> Self {
        VectorIdx(id)
    }
}

} // verus!
