use load_data::wide::{mul_wide, product_ge};

#[test]
fn full_product_of_the_largest_numbers() {
    let w = mul_wide(u128::MAX, u128::MAX);
    assert_eq!(w.hi, u128::MAX - 1);
    assert_eq!(w.lo, 1);
}

#[test]
fn full_product_carries_between_the_halves() {
    let w = mul_wide(1u128 << 64, 1u128 << 64);
    assert_eq!((w.hi, w.lo), (1, 0));
    let w = mul_wide((1u128 << 64) + 3, (1u128 << 64) + 5);
    assert_eq!((w.hi, w.lo), (1, (8u128 << 64) + 15));
    let w = mul_wide(u64::MAX as u128, u64::MAX as u128);
    assert_eq!((w.hi, w.lo), (0, u128::MAX - (2u128 << 64) + 2));
    let w = mul_wide(0, u128::MAX);
    assert_eq!((w.hi, w.lo), (0, 0));
    let w = mul_wide(12345, 6789);
    assert_eq!((w.hi, w.lo), (0, 12345 * 6789));
}

#[test]
fn products_are_compared_beyond_128_bits() {
    assert!(product_ge(3, 4, 2, 6));
    assert!(!product_ge(3, 4, 2, 7));
    let big = u128::MAX;
    assert!(product_ge(big, big, big, big));
    assert!(product_ge(big, big, big, big - 1));
    assert!(!product_ge(big, big - 1, big, big));
    assert!(product_ge(big, 2, big - 1, 2));
    assert!(!product_ge(1u128 << 100, 1u128 << 100, (1u128 << 100) + 1, 1u128 << 100));
    assert!(product_ge((1u128 << 100) + 1, 1u128 << 100, 1u128 << 100, 1u128 << 100));
    assert!(product_ge(0, 0, 0, big));
    assert!(!product_ge(0, big, 1, 1));
}
