use gmp_router::bitmap::{quorum_satisfied, Bitmap};
use gmp_router::errors::RouterError;

#[test]
fn test_bitmap_starts_empty() {
    let bm = Bitmap::new();
    assert!(bm.is_empty());
    assert_eq!(bm.as_value(), 0);
    for i in 0..128u8 {
        assert_eq!(bm.get(i), Ok(false));
    }
}

#[test]
fn test_bitmap_index_out_of_range() {
    let mut bm = Bitmap::new();
    for i in [128u8, 129, 200, 255] {
        assert_eq!(bm.get(i), Err(RouterError::IndexOutOfRange));
        assert_eq!(bm.set(i, true), Err(RouterError::IndexOutOfRange));
        assert_eq!(bm.set(i, false), Err(RouterError::IndexOutOfRange));
    }
    assert_eq!(bm.as_value(), 0);
}

#[test]
fn test_bitmap_set_get_roundtrip() {
    let mut bm = Bitmap::new();
    for i in [0u8, 1, 5, 64, 127] {
        assert_eq!(bm.set(i, true), Ok(()));
        assert_eq!(bm.get(i), Ok(true));
        assert_eq!(bm.set(i, false), Ok(()));
        assert_eq!(bm.get(i), Ok(false));
    }
    assert!(bm.is_empty());
}

#[test]
fn test_bitmap_set_preserves_other_bits() {
    let mut bm = Bitmap::new();
    bm.set(3, true).unwrap();
    bm.set(10, true).unwrap();
    assert_eq!(bm.as_value(), (1u128 << 3) | (1u128 << 10));
    bm.set(3, false).unwrap();
    assert_eq!(bm.get(10), Ok(true));
    assert_eq!(bm.get(3), Ok(false));
    assert_eq!(bm.as_value(), 1u128 << 10);
}

#[test]
fn test_bitmap_from_value_and_equality() {
    let a = Bitmap::from_value(5);
    let b = Bitmap::from_value(5);
    let c = Bitmap::from_value(6);
    assert_eq!(a, b);
    assert_ne!(a, c);
    assert_eq!(a.get(0), Ok(true));
    assert_eq!(a.get(1), Ok(false));
    assert_eq!(a.get(2), Ok(true));
}

#[test]
fn test_quorum_empty_required_is_satisfied() {
    let required = Bitmap::new();
    let attested = Bitmap::new();
    assert!(quorum_satisfied(&required, &attested));
    let attested = Bitmap::from_value(0b101);
    assert!(quorum_satisfied(&required, &attested));
}

#[test]
fn test_quorum_needs_every_required_bit() {
    let required = Bitmap::from_value(0b11);
    assert!(!quorum_satisfied(&required, &Bitmap::from_value(0b01)));
    assert!(!quorum_satisfied(&required, &Bitmap::from_value(0b10)));
    assert!(quorum_satisfied(&required, &Bitmap::from_value(0b11)));
    assert!(quorum_satisfied(&required, &Bitmap::from_value(0b111)));
}
