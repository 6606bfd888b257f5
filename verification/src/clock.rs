//! The vector clock: canonical storage, the mutators (increment, join,
//! selective set, clear), and the partial-order comparisons.

use vstd::prelude::*;

use crate::index::VectorIdx;
use crate::order::{
    canonical, cmp_spec, join_model, lemma_join_canonical, lemma_join_upper_bound,
    lemma_le_reflexive, lemma_ts_join, ts, vc_le,
};
use crate::storage::{
    entries, sv_as_slice, sv_clear, sv_clone, sv_from_elem, sv_get, sv_is_empty, sv_len, sv_new,
    sv_resize, sv_set, TimestampVec, VTimestamp,
};
use core::cmp::Ordering;

verus! {

/// A vector clock: conceptually a total function from vector index to
/// timestamp, compared under the pointwise partial order. It is stored
/// as its canonical sequence — the last stored element is never 0 — so
/// the all-zero clock is the empty sequence, structural equality
/// coincides with equality of the denoted functions, and a comparison
/// can resolve a length difference without scanning the longer tail.
#[derive(Debug)]
pub struct VClock {
    vec: TimestampVec,
}

impl View for VClock {
    type V = Seq<VTimestamp>;

    closed spec fn view(&self) -> Seq<VTimestamp> {
        entries(self.vec)
    }
}

/// Grow the store to at least `min_len` slots, filling new slots with
/// zero; the timestamp at every slot is unchanged. The canonical form
/// is in general broken afterwards: the caller restores it by making
/// the last slot non-zero whenever the store grew.
fn grow_to_min_len(v: &mut TimestampVec, min_len: usize)
    ensures
        entries(*final(v)).len() == (if entries(*old(v)).len() >= min_len {
            entries(*old(v)).len()
        } else {
            min_len as nat
        }),
        forall|i: int| #[trigger] ts(entries(*final(v)), i) == ts(entries(*old(v)), i),
{
    if sv_len(v) < min_len {
        sv_resize(v, min_len, 0);
    }
}

impl VClock {
    #[verifier::type_invariant]
    spec fn inv(self) -> bool {
        canonical(self@)
    }

    /// Create a clock that is zero everywhere except `timestamp` at
    /// `index`. The timestamp must be non-zero (a zero would break the
    /// canonical form; callers never record a zero observation), and
    /// the index must be a valid one, below the reserved sentinel.
    pub fn new_with_index(index: VectorIdx, timestamp: VTimestamp) -> (r: VClock)
        requires
            timestamp != 0,
            index.0 < u32::MAX,
        ensures
            canonical(r@),
            r@.len() == index.0 + 1,
            forall|i: int|
                #[trigger] ts(r@, i) == (if i == index.0 {
                    timestamp
                } else {
                    0
                }),
    {
        let idx = index.index();
        let len = idx + 1;
        let mut vec = sv_from_elem(0, len);
        sv_set(&mut vec, idx, timestamp);
        proof {
            assert(entries(vec).len() == len);
            assert(entries(vec)[idx as int] == timestamp);
            assert forall|i: int|
                #[trigger] ts(entries(vec), i) == (if i == index.0 {
                    timestamp
                } else {
                    0
                }) by {}
        }
        VClock { vec }
    }

    /// The canonical stored sequence of timestamps.
    pub fn as_slice(&self) -> (r: &[VTimestamp])
        ensures
            r@ == self@,
            canonical(self@),
    {
        proof {
            use_type_invariant(self);
        }
        sv_as_slice(&self.vec)
    }

    /// The timestamp at `index`; a slot beyond the stored sequence reads
    /// as 0 — a defined outcome, not an error.
    pub fn index(&self, index: VectorIdx) -> (r: VTimestamp)
        ensures
            r == ts(self@, index.0 as int),
    {
        let i = index.index();
        if i < sv_len(&self.vec) {
            sv_get(&self.vec, i)
        } else {
            0
        }
    }

    /// Increment the timestamp at `idx` by one, growing the store with
    /// zero fill when `idx` lies beyond it. The slot must not stand at
    /// the top of the timestamp range (overflowing it would corrupt
    /// causal ordering and is treated as fatal, never handled), and
    /// `idx` must be a valid index below the reserved sentinel.
    pub fn increment_index(&mut self, idx: VectorIdx)
        requires
            idx.0 < u32::MAX,
            ts(old(self)@, idx.0 as int) < u32::MAX,
        ensures
            canonical(final(self)@),
            final(self)@.len() == (if old(self)@.len() >= idx.0 + 1 {
                old(self)@.len()
            } else {
                (idx.0 + 1) as nat
            }),
            ts(final(self)@, idx.0 as int) == ts(old(self)@, idx.0 as int) + 1,
            forall|j: int|
                j != idx.0 ==> #[trigger] ts(final(self)@, j) == ts(old(self)@, j),
            vc_le(old(self)@, final(self)@),
            final(self)@ != old(self)@,
    {
        proof {
            use_type_invariant(&*self);
        }
        let idx_u = idx.index();
        let mut v = sv_new();
        std::mem::swap(&mut v, &mut self.vec);
        grow_to_min_len(&mut v, idx_u + 1);
        let ghost g = entries(v);
        proof {
            assert(ts(g, idx_u as int) == ts(old(self)@, idx_u as int));
        }
        let t = sv_get(&v, idx_u);
        sv_set(&mut v, idx_u, t + 1);
        proof {
            let e = entries(v);
            let old_len = old(self)@.len();
            assert(e == g.update(idx_u as int, (t + 1) as u32));
            if idx_u + 1 >= old_len {
                assert(e[e.len() - 1] == t + 1);
            } else {
                assert(ts(g, old_len - 1) == ts(old(self)@, old_len - 1));
                assert(e[e.len() - 1] == g[old_len - 1]);
            }
            assert(canonical(e));
        }
        self.vec = v;
        proof {
            assert forall|j: int|
                j != idx.0 implies #[trigger] ts(self@, j) == ts(old(self)@, j) by {
                assert(ts(g, j) == ts(old(self)@, j));
                if 0 <= j < self@.len() {
                    assert(self@[j] == g[j]);
                }
            }
            assert(self@[idx.0 as int] == t + 1);
            assert forall|j: int| #[trigger] ts(old(self)@, j) <= ts(self@, j) by {
                if j != idx.0 {
                    assert(ts(self@, j) == ts(old(self)@, j));
                }
            }
            assert(ts(self@, idx.0 as int) != ts(old(self)@, idx.0 as int));
        }
    }

    /// Merge `other` into `self`: every slot becomes the maximum of the
    /// two clocks' slots, growing the store with zero fill as needed.
    /// This is the standard vector-clock merge, used wherever causal
    /// information is propagated.
    pub fn join(&mut self, other: &Self)
        ensures
            canonical(final(self)@),
            final(self)@ == join_model(old(self)@, other@),
            forall|i: int|
                #[trigger] ts(final(self)@, i) == (if ts(old(self)@, i) >= ts(other@, i) {
                    ts(old(self)@, i)
                } else {
                    ts(other@, i)
                }),
            vc_le(old(self)@, final(self)@),
            vc_le(other@, final(self)@),
    {
        proof {
            use_type_invariant(&*self);
            use_type_invariant(other);
        }
        let ghost a0 = self@;
        let rhs_len = sv_len(&other.vec);
        let mut v = sv_new();
        std::mem::swap(&mut v, &mut self.vec);
        grow_to_min_len(&mut v, rhs_len);
        let len = sv_len(&v);
        proof {
            assert forall|j: int| 0 <= j < len implies entries(v)[j] == ts(a0, j) by {
                assert(ts(entries(v), j) == ts(a0, j));
            }
        }
        let mut i: usize = 0;
        while i < rhs_len
            invariant
                rhs_len == other@.len(),
                entries(v).len() == len,
                len == join_model(a0, other@).len(),
                rhs_len <= len,
                i <= rhs_len,
                forall|j: int| 0 <= j < i ==> entries(v)[j] == ts(join_model(a0, other@), j),
                forall|j: int| i <= j < len ==> entries(v)[j] == ts(a0, j),
            decreases rhs_len - i,
        {
            let l = sv_get(&v, i);
            let r = sv_get(&other.vec, i);
            if r > l {
                sv_set(&mut v, i, r);
            }
            proof {
                lemma_ts_join(a0, other@, i as int);
            }
            i += 1;
        }
        proof {
            assert forall|j: int| 0 <= j < len implies entries(v)[j] == join_model(a0, other@)[j] by {
                lemma_ts_join(a0, other@, j);
            }
            assert(entries(v) =~= join_model(a0, other@));
            lemma_join_canonical(a0, other@);
        }
        self.vec = v;
        proof {
            assert forall|k: int|
                #[trigger] ts(self@, k) == (if ts(a0, k) >= ts(other@, k) {
                    ts(a0, k)
                } else {
                    ts(other@, k)
                }) by {
                lemma_ts_join(a0, other@, k);
            }
            lemma_join_upper_bound(a0, other@);
        }
    }

    /// Copy exactly slot `idx` from `other` into `self`, growing the
    /// store with zero fill as needed; every other slot is unchanged.
    /// The slot must lie inside `other`'s stored sequence, and where the
    /// copied slot becomes `self`'s last stored one the copied value
    /// must be non-zero, else the copy would break the canonical form —
    /// callers use this only to transfer a recorded (hence non-zero)
    /// timestamp. `idx` must be a valid index below the reserved
    /// sentinel.
    pub fn set_at_index(&mut self, other: &Self, idx: VectorIdx)
        requires
            idx.0 < u32::MAX,
            idx.0 < other@.len(),
            idx.0 + 1 >= old(self)@.len() ==> other@[idx.0 as int] != 0,
        ensures
            canonical(final(self)@),
            final(self)@.len() == (if old(self)@.len() >= idx.0 + 1 {
                old(self)@.len()
            } else {
                (idx.0 + 1) as nat
            }),
            ts(final(self)@, idx.0 as int) == ts(other@, idx.0 as int),
            forall|j: int|
                j != idx.0 ==> #[trigger] ts(final(self)@, j) == ts(old(self)@, j),
    {
        proof {
            use_type_invariant(&*self);
            use_type_invariant(other);
        }
        let idx_u = idx.index();
        let mut v = sv_new();
        std::mem::swap(&mut v, &mut self.vec);
        grow_to_min_len(&mut v, idx_u + 1);
        let ghost g = entries(v);
        let value = sv_get(&other.vec, idx_u);
        sv_set(&mut v, idx_u, value);
        proof {
            let e = entries(v);
            let old_len = old(self)@.len();
            assert(e == g.update(idx_u as int, value));
            if idx_u + 1 >= old_len {
                assert(e[e.len() - 1] == value);
            } else {
                assert(ts(g, old_len - 1) == ts(old(self)@, old_len - 1));
                assert(e[e.len() - 1] == g[old_len - 1]);
            }
            assert(canonical(e));
        }
        self.vec = v;
        proof {
            assert(self@[idx.0 as int] == value);
            assert forall|j: int|
                j != idx.0 implies #[trigger] ts(self@, j) == ts(old(self)@, j) by {
                assert(ts(g, j) == ts(old(self)@, j));
                if 0 <= j < self@.len() {
                    assert(self@[j] == g[j]);
                }
            }
        }
    }

    /// Clear back to the all-zero clock: the empty stored sequence.
    pub fn set_zero_vector(&mut self)
        ensures
            final(self)@ == Seq::<VTimestamp>::empty(),
            forall|i: int| #[trigger] ts(final(self)@, i) == 0,
    {
        let mut v = sv_new();
        std::mem::swap(&mut v, &mut self.vec);
        sv_clear(&mut v);
        self.vec = v;
    }

    /// Whether this is the all-zero clock; by the canonical form this
    /// is exactly "the stored sequence is empty".
    pub fn is_zero_vector(&self) -> (r: bool)
        ensures
            r <==> self@ == Seq::<VTimestamp>::empty(),
            r <==> (forall|i: int| #[trigger] ts(self@, i) == 0),
    {
        proof {
            use_type_invariant(self);
        }
        let r = sv_is_empty(&self.vec);
        proof {
            if r {
                assert(self@ =~= Seq::<VTimestamp>::empty());
                assert forall|i: int| #[trigger] ts(self@, i) == 0 by {}
            } else {
                assert(ts(self@, self@.len() - 1) != 0);
            }
        }
        r
    }
}

impl Default for VClock {
    /// The all-zero clock: the empty stored sequence.
    fn default() -> (r: Self)
        ensures
            r@ == Seq::<VTimestamp>::empty(),
            canonical(r@),
    {
        VClock { vec: sv_new() }
    }
}

impl Clone for VClock {
    /// The copy denotes the same clock value.
    fn clone(&self) -> (r: Self)
        ensures
            r@ == self@,
            canonical(r@),
    {
        proof {
            use_type_invariant(self);
        }
        VClock { vec: sv_clone(&self.vec) }
    }
}

impl PartialEq for VClock {
    /// Structural equality of the canonical stored sequences; by the
    /// canonicalization invariant this coincides with equality of the
    /// denoted functions.
    fn eq(&self, other: &Self) -> (r: bool) {
        let a_len = sv_len(&self.vec);
        let b_len = sv_len(&other.vec);
        if a_len != b_len {
            return false;
        }
        let mut i: usize = 0;
        while i < a_len
            invariant
                a_len == self@.len(),
                b_len == other@.len(),
                a_len == b_len,
                i <= a_len,
                forall|j: int| 0 <= j < i ==> self@[j] == other@[j],
            decreases a_len - i,
        {
            if sv_get(&self.vec, i) != sv_get(&other.vec, i) {
                return false;
            }
            i += 1;
        }
        proof {
            assert(self@ =~= other@);
        }
        true
    }
}

impl Eq for VClock {}

impl vstd::std_specs::cmp::PartialEqSpecImpl for VClock {
    open spec fn obeys_eq_spec() -> bool {
        true
    }

    open spec fn eq_spec(&self, other: &Self) -> bool {
        self@ == other@
    }
}

impl vstd::std_specs::cmp::PartialOrdSpecImpl for VClock {
    open spec fn obeys_partial_cmp_spec() -> bool {
        true
    }

    open spec fn partial_cmp_spec(&self, other: &Self) -> Option<Ordering> {
        cmp_spec(self@, other@)
    }
}

impl PartialOrd for VClock {
    /// The full three-way-or-incomparable comparison: one lockstep walk
    /// of the shared prefix refines a running verdict, and a length
    /// difference is then resolved through the canonical form without
    /// scanning the longer tail.
    fn partial_cmp(&self, other: &Self) -> (r: Option<Ordering>) {
        proof {
            use_type_invariant(self);
            use_type_invariant(other);
        }
        let a_len = sv_len(&self.vec);
        let b_len = sv_len(&other.vec);
        let min_len = if a_len <= b_len {
            a_len
        } else {
            b_len
        };
        let mut order = Ordering::Equal;
        let mut i: usize = 0;
        while i < min_len
            invariant
                a_len == self@.len(),
                b_len == other@.len(),
                min_len <= a_len,
                min_len <= b_len,
                i <= min_len,
                order == Ordering::Equal ==> forall|j: int|
                    0 <= j < i ==> self@[j] == other@[j],
                order == Ordering::Less ==> (forall|j: int|
                    0 <= j < i ==> self@[j] <= other@[j]) && (exists|j: int|
                    0 <= j < i && self@[j] < other@[j]),
                order == Ordering::Greater ==> (forall|j: int|
                    0 <= j < i ==> self@[j] >= other@[j]) && (exists|j: int|
                    0 <= j < i && self@[j] > other@[j]),
            decreases min_len - i,
        {
            let l = sv_get(&self.vec, i);
            let rv = sv_get(&other.vec, i);
            match order {
                Ordering::Equal => {
                    if l < rv {
                        order = Ordering::Less;
                    } else if l > rv {
                        order = Ordering::Greater;
                    }
                },
                Ordering::Less => {
                    if l > rv {
                        proof {
                            let j = choose|j: int| 0 <= j < i && self@[j] < other@[j];
                            assert(ts(other@, j) > ts(self@, j));
                            assert(ts(self@, i as int) > ts(other@, i as int));
                        }
                        return None;
                    }
                },
                Ordering::Greater => {
                    if l < rv {
                        proof {
                            let j = choose|j: int| 0 <= j < i && self@[j] > other@[j];
                            assert(ts(self@, j) > ts(other@, j));
                            assert(ts(other@, i as int) > ts(self@, i as int));
                        }
                        return None;
                    }
                },
            }
            i += 1;
        }
        if a_len == b_len {
            proof {
                match order {
                    Ordering::Equal => {
                        assert forall|k: int| #[trigger] ts(self@, k) <= ts(other@, k) by {}
                        assert forall|k: int| #[trigger] ts(other@, k) <= ts(self@, k) by {}
                    },
                    Ordering::Less => {
                        assert forall|k: int| #[trigger] ts(self@, k) <= ts(other@, k) by {}
                        let j = choose|j: int| 0 <= j < i && self@[j] < other@[j];
                        assert(ts(other@, j) > ts(self@, j));
                    },
                    Ordering::Greater => {
                        assert forall|k: int| #[trigger] ts(other@, k) <= ts(self@, k) by {}
                        let j = choose|j: int| 0 <= j < i && self@[j] > other@[j];
                        assert(ts(self@, j) > ts(other@, j));
                    },
                }
            }
            Some(order)
        } else if a_len < b_len {
            proof {
                assert(ts(other@, b_len - 1) == other@[b_len - 1]);
                assert(ts(self@, b_len - 1) == 0);
            }
            match order {
                Ordering::Less | Ordering::Equal => {
                    proof {
                        assert forall|k: int| #[trigger] ts(self@, k) <= ts(other@, k) by {}
                    }
                    Some(Ordering::Less)
                },
                Ordering::Greater => {
                    proof {
                        let j = choose|j: int| 0 <= j < i && self@[j] > other@[j];
                        assert(ts(self@, j) > ts(other@, j));
                    }
                    None
                },
            }
        } else {
            proof {
                assert(ts(self@, a_len - 1) == self@[a_len - 1]);
                assert(ts(other@, a_len - 1) == 0);
            }
            match order {
                Ordering::Greater | Ordering::Equal => {
                    proof {
                        assert forall|k: int| #[trigger] ts(other@, k) <= ts(self@, k) by {}
                    }
                    Some(Ordering::Greater)
                },
                Ordering::Less => {
                    proof {
                        let j = choose|j: int| 0 <= j < i && self@[j] < other@[j];
                        assert(ts(other@, j) > ts(self@, j));
                    }
                    None
                },
            }
        }
    }

    /// The fast strict-less check: a single forward scan with an early
    /// exit. A longer clock can never be strictly less, so a length
    /// test alone settles that case.
    fn lt(&self, other: &Self) -> (r: bool) {
        proof {
            use_type_invariant(self);
            use_type_invariant(other);
        }
        let a_len = sv_len(&self.vec);
        let b_len = sv_len(&other.vec);
        if a_len <= b_len {
            let mut equal = a_len == b_len;
            let mut i: usize = 0;
            while i < a_len
                invariant
                    a_len == self@.len(),
                    b_len == other@.len(),
                    a_len <= b_len,
                    i <= a_len,
                    forall|j: int| 0 <= j < i ==> self@[j] <= other@[j],
                    equal <==> (a_len == b_len && (forall|j: int|
                        0 <= j < i ==> self@[j] == other@[j])),
                decreases a_len - i,
            {
                let l = sv_get(&self.vec, i);
                let rv = sv_get(&other.vec, i);
                if l > rv {
                    proof {
                        assert(ts(self@, i as int) > ts(other@, i as int));
                    }
                    return false;
                } else if l < rv {
                    equal = false;
                }
                i += 1;
            }
            proof {
                assert forall|k: int| #[trigger] ts(self@, k) <= ts(other@, k) by {}
                if equal {
                    assert(self@ =~= other@);
                    lemma_le_reflexive(self@);
                } else if a_len == b_len {
                    let j = choose|j: int| 0 <= j < a_len && self@[j] != other@[j];
                    assert(ts(other@, j) > ts(self@, j));
                } else {
                    assert(ts(other@, b_len - 1) == other@[b_len - 1]);
                    assert(ts(self@, b_len - 1) == 0);
                }
            }
            !equal
        } else {
            proof {
                assert(ts(self@, a_len - 1) == self@[a_len - 1]);
                assert(ts(other@, a_len - 1) == 0);
            }
            false
        }
    }

    /// The fast at-most check: a single forward scan with an early
    /// exit; a longer clock is never at most a shorter one.
    fn le(&self, other: &Self) -> (r: bool) {
        proof {
            use_type_invariant(self);
            use_type_invariant(other);
        }
        let a_len = sv_len(&self.vec);
        let b_len = sv_len(&other.vec);
        if a_len <= b_len {
            let mut i: usize = 0;
            while i < a_len
                invariant
                    a_len == self@.len(),
                    b_len == other@.len(),
                    a_len <= b_len,
                    i <= a_len,
                    forall|j: int| 0 <= j < i ==> self@[j] <= other@[j],
                decreases a_len - i,
            {
                if sv_get(&self.vec, i) > sv_get(&other.vec, i) {
                    proof {
                        assert(ts(self@, i as int) > ts(other@, i as int));
                    }
                    return false;
                }
                i += 1;
            }
            proof {
                assert forall|k: int| #[trigger] ts(self@, k) <= ts(other@, k) by {}
            }
            true
        } else {
            proof {
                assert(ts(self@, a_len - 1) == self@[a_len - 1]);
                assert(ts(other@, a_len - 1) == 0);
            }
            false
        }
    }

    /// The fast strict-greater check, mirror of the strict-less one.
    fn gt(&self, other: &Self) -> (r: bool) {
        proof {
            use_type_invariant(self);
            use_type_invariant(other);
        }
        let a_len = sv_len(&self.vec);
        let b_len = sv_len(&other.vec);
        if a_len >= b_len {
            let mut equal = a_len == b_len;
            let mut i: usize = 0;
            while i < b_len
                invariant
                    a_len == self@.len(),
                    b_len == other@.len(),
                    a_len >= b_len,
                    i <= b_len,
                    forall|j: int| 0 <= j < i ==> self@[j] >= other@[j],
                    equal <==> (a_len == b_len && (forall|j: int|
                        0 <= j < i ==> self@[j] == other@[j])),
                decreases b_len - i,
            {
                let l = sv_get(&self.vec, i);
                let rv = sv_get(&other.vec, i);
                if l < rv {
                    proof {
                        assert(ts(other@, i as int) > ts(self@, i as int));
                    }
                    return false;
                } else if l > rv {
                    equal = false;
                }
                i += 1;
            }
            proof {
                assert forall|k: int| #[trigger] ts(other@, k) <= ts(self@, k) by {}
                if equal {
                    assert(self@ =~= other@);
                    lemma_le_reflexive(self@);
                } else if a_len == b_len {
                    let j = choose|j: int| 0 <= j < b_len && self@[j] != other@[j];
                    assert(ts(self@, j) > ts(other@, j));
                } else {
                    assert(ts(self@, a_len - 1) == self@[a_len - 1]);
                    assert(ts(other@, a_len - 1) == 0);
                }
            }
            !equal
        } else {
            proof {
                assert(ts(other@, b_len - 1) == other@[b_len - 1]);
                assert(ts(self@, b_len - 1) == 0);
            }
            false
        }
    }

    /// The fast at-least check, mirror of the at-most one.
    fn ge(&self, other: &Self) -> (r: bool) {
        proof {
            use_type_invariant(self);
            use_type_invariant(other);
        }
        let a_len = sv_len(&self.vec);
        let b_len = sv_len(&other.vec);
        if a_len >= b_len {
            let mut i: usize = 0;
            while i < b_len
                invariant
                    a_len == self@.len(),
                    b_len == other@.len(),
                    a_len >= b_len,
                    i <= b_len,
                    forall|j: int| 0 <= j < i ==> self@[j] >= other@[j],
                decreases b_len - i,
            {
                if sv_get(&self.vec, i) < sv_get(&other.vec, i) {
                    proof {
                        assert(ts(other@, i as int) > ts(self@, i as int));
                    }
                    return false;
                }
                i += 1;
            }
            proof {
                assert forall|k: int| #[trigger] ts(other@, k) <= ts(self@, k) by {}
            }
            true
        } else {
            proof {
                assert(ts(other@, b_len - 1) == other@[b_len - 1]);
                assert(ts(self@, b_len - 1) == 0);
            }
            false
        }
    }
}

} // verus!
