//! The mathematical model of clock values and of their partial order.
//!
//! A clock value is viewed as an infinite-dimensional vector over the
//! non-negative integers: the stored sequence, zero-extended past its
//! length (see [`ts`]). Clocks are compared under the product (pointwise)
//! partial order [`vc_le`]; two clocks ordered in neither direction are
//! incomparable — the data-race signal. [`join_model`] is the pointwise
//! maximum, the merge that propagates causal knowledge.

use vstd::prelude::*;

use crate::storage::VTimestamp;
use core::cmp::Ordering;

verus! {

/// The timestamp a clock value assigns to slot `i`: the stored element
/// where `i` lies inside the sequence, and the implicit 0 beyond it.
pub open spec fn ts(s: Seq<VTimestamp>, i: int) -> VTimestamp {
    if 0 <= i < s.len() {
        s[i]
    } else {
        0
    }
}

/// The canonical-representation invariant: a stored sequence never ends
/// in a zero. Consequently the all-zero clock is exactly the empty
/// sequence, and each clock value has one unique stored form.
pub open spec fn canonical(s: Seq<VTimestamp>) -> bool {
    s.len() > 0 ==> s[s.len() - 1] != 0
}

/// The pointwise partial order: every slot of `a` is at most the
/// matching slot of `b`.
pub open spec fn vc_le(a: Seq<VTimestamp>, b: Seq<VTimestamp>) -> bool {
    forall|i: int| #[trigger] ts(a, i) <= ts(b, i)
}

/// The three-way-or-incomparable comparison of two clock values under
/// the pointwise partial order; `None` means incomparable (concurrent).
pub open spec fn cmp_spec(a: Seq<VTimestamp>, b: Seq<VTimestamp>) -> Option<Ordering> {
    if vc_le(a, b) && vc_le(b, a) {
        Some(Ordering::Equal)
    } else if vc_le(a, b) {
        Some(Ordering::Less)
    } else if vc_le(b, a) {
        Some(Ordering::Greater)
    } else {
        None
    }
}

/// The pointwise maximum of two clock values, stored over the longer of
/// the two sequences.
pub open spec fn join_model(a: Seq<VTimestamp>, b: Seq<VTimestamp>) -> Seq<VTimestamp> {
    Seq::new(
        if a.len() >= b.len() {
            a.len()
        } else {
            b.len()
        },
        |i: int|
            if ts(a, i) >= ts(b, i) {
                ts(a, i)
            } else {
                ts(b, i)
            },
    )
}

/// At every slot — also past the stored length — the joined value is the
/// maximum of the two joined clocks' slots.
pub proof fn lemma_ts_join(a: Seq<VTimestamp>, b: Seq<VTimestamp>, i: int)
    ensures
        ts(join_model(a, b), i) == (if ts(a, i) >= ts(b, i) {
            ts(a, i)
        } else {
            ts(b, i)
        }),
{
}

/// The pointwise order is reflexive: every clock is at most itself.
pub proof fn lemma_le_reflexive(a: Seq<VTimestamp>)
    ensures
        vc_le(a, a),
{
}

/// The pointwise order is antisymmetric on canonical forms: two clocks
/// each at most the other assign the same timestamp to every slot, and
/// canonicalization then forces the one stored form.
pub proof fn lemma_le_antisymmetric(a: Seq<VTimestamp>, b: Seq<VTimestamp>)
    requires
        canonical(a),
        canonical(b),
        vc_le(a, b),
        vc_le(b, a),
    ensures
        a == b,
{
    if a.len() < b.len() {
        let j = b.len() - 1;
        assert(ts(b, j) <= ts(a, j));
        assert(false);
    }
    if b.len() < a.len() {
        let j = a.len() - 1;
        assert(ts(a, j) <= ts(b, j));
        assert(false);
    }
    assert forall|i: int| 0 <= i < a.len() implies a[i] == b[i] by {
        assert(ts(a, i) <= ts(b, i));
        assert(ts(b, i) <= ts(a, i));
    }
    assert(a =~= b);
}

/// A clock value has exactly one canonical form: two canonical
/// sequences that assign the same timestamp to every slot are the same
/// sequence, whatever mutation paths built them — so they compare
/// equal structurally.
pub proof fn lemma_same_denotation(a: Seq<VTimestamp>, b: Seq<VTimestamp>)
    requires
        canonical(a),
        canonical(b),
        forall|i: int| #[trigger] ts(a, i) == ts(b, i),
    ensures
        a == b,
{
    assert forall|i: int| #[trigger] ts(a, i) <= ts(b, i) by {}
    assert forall|i: int| #[trigger] ts(b, i) <= ts(a, i) by {}
    lemma_le_antisymmetric(a, b);
}

/// The pointwise order is transitive.
pub proof fn lemma_le_transitive(a: Seq<VTimestamp>, b: Seq<VTimestamp>, c: Seq<VTimestamp>)
    requires
        vc_le(a, b),
        vc_le(b, c),
    ensures
        vc_le(a, c),
{
    assert forall|i: int| #[trigger] ts(a, i) <= ts(c, i) by {
        assert(ts(a, i) <= ts(b, i));
        assert(ts(b, i) <= ts(c, i));
    }
}

/// Comparing in the other direction gives the order-reversed answer:
/// equal stays equal, less and greater swap, incomparable stays
/// incomparable.
pub proof fn lemma_cmp_reverse(a: Seq<VTimestamp>, b: Seq<VTimestamp>)
    ensures
        cmp_spec(b, a) == (match cmp_spec(a, b) {
            Some(Ordering::Less) => Some(Ordering::Greater),
            Some(Ordering::Equal) => Some(Ordering::Equal),
            Some(Ordering::Greater) => Some(Ordering::Less),
            None => None::<Ordering>,
        }),
{
}

/// Joining a clock with itself gives it back unchanged.
pub proof fn lemma_join_idempotent(a: Seq<VTimestamp>)
    ensures
        join_model(a, a) == a,
{
    assert(join_model(a, a) =~= a);
}

/// Joining is commutative.
pub proof fn lemma_join_commutative(a: Seq<VTimestamp>, b: Seq<VTimestamp>)
    ensures
        join_model(a, b) == join_model(b, a),
{
    assert(join_model(a, b) =~= join_model(b, a));
}

/// Joining is associative.
pub proof fn lemma_join_associative(a: Seq<VTimestamp>, b: Seq<VTimestamp>, c: Seq<VTimestamp>)
    ensures
        join_model(join_model(a, b), c) == join_model(a, join_model(b, c)),
{
    let l = join_model(join_model(a, b), c);
    let r = join_model(a, join_model(b, c));
    assert forall|i: int| 0 <= i < l.len() implies l[i] == r[i] by {
        lemma_ts_join(a, b, i);
        lemma_ts_join(b, c, i);
        lemma_ts_join(join_model(a, b), c, i);
        lemma_ts_join(a, join_model(b, c), i);
    }
    assert(l =~= r);
}

/// A join is an upper bound of both of its arguments.
pub proof fn lemma_join_upper_bound(a: Seq<VTimestamp>, b: Seq<VTimestamp>)
    ensures
        vc_le(a, join_model(a, b)),
        vc_le(b, join_model(a, b)),
{
    assert forall|i: int| #[trigger] ts(a, i) <= ts(join_model(a, b), i) by {
        lemma_ts_join(a, b, i);
    }
    assert forall|i: int| #[trigger] ts(b, i) <= ts(join_model(a, b), i) by {
        lemma_ts_join(a, b, i);
    }
}

/// A join of canonical forms is canonical: the longer argument's last
/// stored element is non-zero, and the join's last element is at least
/// it.
pub proof fn lemma_join_canonical(a: Seq<VTimestamp>, b: Seq<VTimestamp>)
    requires
        canonical(a),
        canonical(b),
    ensures
        canonical(join_model(a, b)),
{
    let j = join_model(a, b);
    if j.len() > 0 {
        let last = j.len() - 1;
        if a.len() >= b.len() {
            assert(ts(a, last) == a[last]);
        } else {
            assert(ts(b, last) == b[last]);
        }
    }
}

} // verus!
