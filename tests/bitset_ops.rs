use bitset::{Bitset, BitsetError};

// Binary 11110: 1, 2, 3 and 4 are set.
fn set_a() -> Bitset {
    Bitset::from(30)
}

// Binary 00110: 1 and 2 are set.
fn set_b() -> Bitset {
    Bitset::from(6)
}

#[test]
fn test_clear() {
    let mut bitset = Bitset::new();
    let _ = bitset.insert(100);
    assert_eq!(true, bitset.contains(100));
    bitset.clear();
    assert_eq!(false, bitset.contains(100));
}

#[test]
fn test_from_u128() {
    let raw: u128 = 10; // 1010 in binary
    let bitset: Bitset = raw.into();

    assert!(bitset.contains(1));
    assert!(bitset.contains(3));
}

#[test]
fn test_insert_and_contains() -> Result<(), BitsetError> {
    // A new set holds no value.
    let mut bitset = Bitset::new();
    assert_eq!(false, bitset.contains(42));

    // The first insertion finds the value absent.
    assert_eq!(false, bitset.insert(42)?);
    assert_eq!(true, bitset.contains(42));

    // The second insertion finds it present.
    assert_eq!(true, bitset.insert(42)?);
    assert_eq!(true, bitset.contains(42));

    Ok(())
}

#[test]
fn test_insert_large_value_fails() {
    let mut bitset = Bitset::new();
    let result = bitset.insert(128);
    assert!(result.is_err());
}

#[test]
fn test_is_empty() {
    let mut bitset = Bitset::new();
    assert!(bitset.is_empty());
    let _ = bitset.insert(10);
    assert_eq!(false, bitset.is_empty());
}

#[test]
fn test_set_difference() {
    let result = set_a() - set_b();
    assert!(!result.contains(1));
    assert!(!result.contains(2));
    assert!(result.contains(3));
    assert!(result.contains(4));
}

#[test]
fn test_set_difference_assign() {
    let mut set_a = Bitset::new();
    let _ = set_a.insert(1);
    let _ = set_a.insert(2);
    let _ = set_a.insert(3);
    let _ = set_a.insert(4);

    set_a -= set_b();
    assert!(!set_a.contains(1));
    assert!(!set_a.contains(2));
    assert!(set_a.contains(3));
    assert!(set_a.contains(4));
}

#[test]
fn test_set_intersection() {
    let result = set_a() & set_b();
    assert!(result.contains(1));
    assert!(result.contains(2));
    assert!(!result.contains(3));
    assert!(!result.contains(4));
}

#[test]
fn test_set_intersection_assign() {
    let mut set_a = Bitset::new();
    let _ = set_a.insert(1);
    let _ = set_a.insert(2);
    let _ = set_a.insert(3);
    let _ = set_a.insert(4);

    set_a &= set_b();
    assert!(set_a.contains(1));
    assert!(set_a.contains(2));
    assert!(!set_a.contains(3));
    assert!(!set_a.contains(4));
}

#[test]
fn test_set_negation() {
    let result = !set_a();

    assert!(!result.contains(1));
    assert!(!result.contains(2));
    assert!(!result.contains(3));
    assert!(!result.contains(4));

    assert!(result.contains(5));
    assert!(result.contains(28));
    assert!(result.contains(56));
    assert!(result.contains(100));
}

#[test]
fn test_set_union() {
    let result = set_a() | set_b();
    assert!(result.contains(1));
    assert!(result.contains(2));
    assert!(result.contains(3));
    assert!(result.contains(4));
}

#[test]
fn test_set_union_assign() {
    let mut set_a = Bitset::new();
    let _ = set_a.insert(1);
    let _ = set_a.insert(2);
    let _ = set_a.insert(3);
    let _ = set_a.insert(4);

    set_a |= set_b();
    assert!(set_a.contains(1));
    assert!(set_a.contains(2));
    assert!(set_a.contains(3));
    assert!(set_a.contains(4));
}
