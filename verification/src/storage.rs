//! The backing store of a clock: a growable sequence of timestamps with
//! a small inline buffer, spilling to the heap past a fixed threshold.
//! The inline buffer is purely a performance choice for the common case
//! of few participating threads; nothing of it shows in the semantics.
//!
//! Everything the rest of the crate knows about the store is stated here,
//! over the spec function [`entries`], as small trusted wrappers around
//! `smallvec::SmallVec`.

use vstd::prelude::*;

verus! {

/// The type of the timestamps recorded per slot.
pub type VTimestamp = u32;

/// How many timestamps are stored inline; longer clocks spill to the heap.
pub const SMALL_VECTOR: usize = 4;

/// The backing store: a growable vector of timestamps, held opaquely
/// because Verus cannot read `smallvec::SmallVec` itself (its `Array`
/// bound is a trait of the outside crate). Everything known about a
/// value of this type is stated through [`entries`].
#[derive(Debug)]
#[verifier::external_body]
pub struct TimestampVec {
    data: smallvec::SmallVec<[VTimestamp; SMALL_VECTOR]>,
}

/// The elements a backing store holds, in storage order.
pub uninterp spec fn entries(v: TimestampVec) -> Seq<VTimestamp>;

/// Relies on `smallvec::SmallVec::new`: constructs the empty vector.
#[verifier::external_body]
pub(crate) fn sv_new() -> (r: TimestampVec)
    ensures
        entries(r) == Seq::<VTimestamp>::empty(),
{
    TimestampVec { data: smallvec::SmallVec::new() }
}

/// Relies on `smallvec::SmallVec::from_elem`: a vector of `n` copies of
/// `elem`.
#[verifier::external_body]
pub(crate) fn sv_from_elem(elem: VTimestamp, n: usize) -> (r: TimestampVec)
    ensures
        entries(r) == Seq::<VTimestamp>::new(n as nat, |i: int| elem),
{
    TimestampVec { data: smallvec::SmallVec::from_elem(elem, n) }
}

/// Relies on `smallvec::SmallVec::len`: the number of stored elements.
#[verifier::external_body]
pub(crate) fn sv_len(v: &TimestampVec) -> (r: usize)
    ensures
        r == entries(*v).len(),
{
    v.data.len()
}

/// Relies on `smallvec::SmallVec::is_empty`: whether nothing is stored.
#[verifier::external_body]
pub(crate) fn sv_is_empty(v: &TimestampVec) -> (r: bool)
    ensures
        r <==> entries(*v).len() == 0,
{
    v.data.is_empty()
}

/// Relies on the `Index` impl of `smallvec::SmallVec` (slice indexing):
/// the element at position `i`.
#[verifier::external_body]
pub(crate) fn sv_get(v: &TimestampVec, i: usize) -> (r: VTimestamp)
    requires
        i < entries(*v).len(),
    ensures
        r == entries(*v)[i as int],
{
    v.data[i]
}

/// Relies on the `IndexMut` impl of `smallvec::SmallVec` (slice
/// indexing): stores `value` at position `i`.
#[verifier::external_body]
pub(crate) fn sv_set(v: &mut TimestampVec, i: usize, value: VTimestamp)
    requires
        i < entries(*old(v)).len(),
    ensures
        entries(*final(v)) == entries(*old(v)).update(i as int, value),
{
    v.data[i] = value;
}

/// Relies on `smallvec::SmallVec::resize`: truncates to `len` elements,
/// or appends copies of `value` until the length is `len`.
#[verifier::external_body]
pub(crate) fn sv_resize(v: &mut TimestampVec, len: usize, value: VTimestamp)
    ensures
        len <= entries(*old(v)).len() ==> entries(*final(v)) == entries(*old(v)).take(
            len as int,
        ),
        len > entries(*old(v)).len() ==> entries(*final(v)) == entries(*old(v)) + Seq::<
            VTimestamp,
        >::new((len - entries(*old(v)).len()) as nat, |i: int| value),
{
    v.data.resize(len, value);
}

/// Relies on `smallvec::SmallVec::clear`: removes every element.
#[verifier::external_body]
pub(crate) fn sv_clear(v: &mut TimestampVec)
    ensures
        entries(*final(v)) == Seq::<VTimestamp>::empty(),
{
    v.data.clear();
}

/// Relies on the `Clone` impl of `smallvec::SmallVec`: the copy holds
/// the same elements.
#[verifier::external_body]
pub(crate) fn sv_clone(v: &TimestampVec) -> (r: TimestampVec)
    ensures
        entries(r) == entries(*v),
{
    TimestampVec { data: v.data.clone() }
}

/// Relies on `smallvec::SmallVec::as_slice`: the stored elements, in
/// order.
#[verifier::external_body]
pub(crate) fn sv_as_slice(v: &TimestampVec) -> (r: &[VTimestamp])
    ensures
        r@ == entries(*v),
{
    v.data.as_slice()
}

} // verus!
