use std::cmp::Ordering;
use vector_clock::{VClock, VTimestamp, VectorIdx};

#[test]
fn test_equal() {
    let mut c1 = VClock::default();
    let mut c2 = VClock::default();
    assert_eq!(c1, c2);
    c1.increment_index(VectorIdx(5));
    assert_ne!(c1, c2);
    c2.increment_index(VectorIdx(53));
    assert_ne!(c1, c2);
    c1.increment_index(VectorIdx(53));
    assert_ne!(c1, c2);
    c2.increment_index(VectorIdx(5));
    assert_eq!(c1, c2);
}

#[test]
fn test_partial_order() {
    // Small test
    assert_order(&[1], &[1], Some(Ordering::Equal));
    assert_order(&[1], &[2], Some(Ordering::Less));
    assert_order(&[2], &[1], Some(Ordering::Greater));
    assert_order(&[1], &[1, 2], Some(Ordering::Less));
    assert_order(&[2], &[1, 2], None);

    // Misc tests
    assert_order(&[400], &[0, 1], None);

    // Large test
    assert_order(
        &[0, 1, 2, 3, 4, 5, 6, 7, 8, 9, 10],
        &[0, 1, 2, 3, 4, 5, 6, 7, 8, 9, 10, 0, 0, 0],
        Some(Ordering::Equal),
    );
    assert_order(
        &[0, 1, 2, 3, 4, 5, 6, 7, 8, 9, 10],
        &[0, 1, 2, 3, 4, 5, 6, 7, 8, 9, 10, 0, 1, 0],
        Some(Ordering::Less),
    );
    assert_order(
        &[0, 1, 2, 3, 4, 5, 6, 7, 8, 9, 11],
        &[0, 1, 2, 3, 4, 5, 6, 7, 8, 9, 10, 0, 0, 0],
        Some(Ordering::Greater),
    );
    assert_order(
        &[0, 1, 2, 3, 4, 5, 6, 7, 8, 9, 11],
        &[0, 1, 2, 3, 4, 5, 6, 7, 8, 9, 10, 0, 1, 0],
        None,
    );
    assert_order(
        &[0, 1, 2, 3, 4, 5, 6, 7, 8, 9, 9],
        &[0, 1, 2, 3, 4, 5, 6, 7, 8, 9, 10, 0, 0, 0],
        Some(Ordering::Less),
    );
    assert_order(
        &[0, 1, 2, 3, 4, 5, 6, 7, 8, 9, 9],
        &[0, 1, 2, 3, 4, 5, 6, 7, 8, 9, 10, 0, 1, 0],
        Some(Ordering::Less),
    );
}

fn from_slice(slice: &[VTimestamp]) -> VClock {
    let mut c = VClock::default();
    for (i, &v) in slice.iter().enumerate() {
        if v != 0 {
            c.join(&VClock::new_with_index(VectorIdx::new(i), v));
        }
    }
    c
}

fn assert_order(l: &[VTimestamp], r: &[VTimestamp], o: Option<Ordering>) {
    let l = from_slice(l);
    let r = from_slice(r);

    //Test partial_cmp
    let compare = l.partial_cmp(&r);
    assert_eq!(compare, o, "Invalid comparison\n l: {:?}\n r: {:?}", l, r);
    let alt_compare = r.partial_cmp(&l);
    assert_eq!(
        alt_compare,
        o.map(Ordering::reverse),
        "Invalid alt comparison\n l: {:?}\n r: {:?}",
        l,
        r
    );

    //Test operators with faster implementations
    assert_eq!(
        matches!(compare, Some(Ordering::Less)),
        l < r,
        "Invalid (<):\n l: {:?}\n r: {:?}",
        l,
        r
    );
    assert_eq!(
        matches!(compare, Some(Ordering::Less) | Some(Ordering::Equal)),
        l <= r,
        "Invalid (<=):\n l: {:?}\n r: {:?}",
        l,
        r
    );
    assert_eq!(
        matches!(compare, Some(Ordering::Greater)),
        l > r,
        "Invalid (>):\n l: {:?}\n r: {:?}",
        l,
        r
    );
    assert_eq!(
        matches!(compare, Some(Ordering::Greater) | Some(Ordering::Equal)),
        l >= r,
        "Invalid (>=):\n l: {:?}\n r: {:?}",
        l,
        r
    );
    assert_eq!(
        matches!(alt_compare, Some(Ordering::Less)),
        r < l,
        "Invalid alt (<):\n l: {:?}\n r: {:?}",
        l,
        r
    );
    assert_eq!(
        matches!(alt_compare, Some(Ordering::Less) | Some(Ordering::Equal)),
        r <= l,
        "Invalid alt (<=):\n l: {:?}\n r: {:?}",
        l,
        r
    );
    assert_eq!(
        matches!(alt_compare, Some(Ordering::Greater)),
        r > l,
        "Invalid alt (>):\n l: {:?}\n r: {:?}",
        l,
        r
    );
    assert_eq!(
        matches!(alt_compare, Some(Ordering::Greater) | Some(Ordering::Equal)),
        r >= l,
        "Invalid alt (>=):\n l: {:?}\n r: {:?}",
        l,
        r
    );
}

#[test]
fn test_canonical_form() {
    // The all-zero clock is stored empty.
    let zero = VClock::default();
    assert!(zero.is_zero_vector());
    assert_eq!(zero.as_slice(), &[] as &[VTimestamp]);

    // A single-slot constructor zero-fills up to the slot.
    let c = VClock::new_with_index(VectorIdx(3), 7);
    assert_eq!(c.as_slice(), &[0, 0, 0, 7]);
    assert!(!c.is_zero_vector());

    // Incrementing past the end grows with zero fill.
    let mut d = VClock::default();
    d.increment_index(VectorIdx(2));
    assert_eq!(d.as_slice(), &[0, 0, 1]);

    // Every mutation path leaves the last stored element non-zero.
    let mut e = from_slice(&[1, 2]);
    e.join(&from_slice(&[1, 2]));
    assert_eq!(e.as_slice(), &[1, 2]);
    assert_ne!(*e.as_slice().last().unwrap(), 0);

    // Clearing restores the empty representation.
    e.set_zero_vector();
    assert!(e.is_zero_vector());
    assert_eq!(e.as_slice().len(), 0);
}

#[test]
fn test_join_laws() {
    let a = from_slice(&[1, 5]);
    let b = from_slice(&[3, 2, 4]);
    let c = from_slice(&[0, 9]);

    // Idempotent.
    let mut aa = a.clone();
    aa.join(&a);
    assert_eq!(aa, a);

    // Commutative.
    let mut ab = a.clone();
    ab.join(&b);
    let mut ba = b.clone();
    ba.join(&a);
    assert_eq!(ab, ba);
    assert_eq!(ab.as_slice(), &[3, 5, 4]);

    // Associative.
    let mut ab_c = ab.clone();
    ab_c.join(&c);
    let mut bc = b.clone();
    bc.join(&c);
    let mut a_bc = a.clone();
    a_bc.join(&bc);
    assert_eq!(ab_c, a_bc);

    // Upper bound of both arguments.
    assert!(a <= ab);
    assert!(b <= ab);
}

#[test]
fn test_order_laws() {
    let a = from_slice(&[1, 2]);
    let b = from_slice(&[1, 3]);
    let c = from_slice(&[2, 3, 1]);

    // Reflexive.
    assert!(a <= a);
    assert_eq!(a.partial_cmp(&a), Some(Ordering::Equal));

    // Antisymmetric: mutual order only between equal clocks.
    let a2 = from_slice(&[1, 2, 0]);
    assert!(a <= a2 && a2 <= a);
    assert_eq!(a, a2);

    // Transitive.
    assert!(a <= b && b <= c);
    assert!(a <= c);
}

#[test]
fn test_increment_monotonic() {
    let mut a = from_slice(&[2, 3]);
    let before = a.clone();
    a.increment_index(VectorIdx(1));
    assert!(before < a);
    assert_eq!(a.as_slice(), &[2, 4]);
    assert_eq!(a.index(VectorIdx(0)), before.index(VectorIdx(0)));
    assert_eq!(a.index(VectorIdx(1)), before.index(VectorIdx(1)) + 1);
}

#[test]
fn test_set_at_index() {
    let other = from_slice(&[0, 0, 9]);
    let mut c = from_slice(&[5]);
    c.set_at_index(&other, VectorIdx(2));
    assert_eq!(c.as_slice(), &[5, 0, 9]);

    let mut d = VClock::default();
    d.set_at_index(&other, VectorIdx(2));
    assert_eq!(d.as_slice(), &[0, 0, 9]);
}

#[test]
fn test_index_read() {
    let c = from_slice(&[1, 2]);
    assert_eq!(c.index(VectorIdx(0)), 1);
    assert_eq!(c.index(VectorIdx(1)), 2);
    // A slot beyond the stored sequence reads as zero.
    assert_eq!(c.index(VectorIdx(100)), 0);
    assert_eq!(VClock::default().index(VectorIdx(0)), 0);
}

#[test]
fn test_clone_independent() {
    let a = from_slice(&[4, 0, 2]);
    let mut b = a.clone();
    assert_eq!(a, b);
    assert_eq!(b.as_slice(), &[4, 0, 2]);
    b.increment_index(VectorIdx(0));
    assert_ne!(a, b);
    assert_eq!(a.as_slice(), &[4, 0, 2]);
}

#[test]
fn test_vector_idx() {
    let i = VectorIdx::new(17);
    assert_eq!(i.to_u32(), 17);
    assert_eq!(i.index(), 17);
    assert_eq!(VectorIdx::from(17u32), i);
    let max = VectorIdx::max_index();
    assert_eq!(max.to_u32(), u32::MAX);
    assert_ne!(max, i);
}
