use engine_core::u256::U256;
use engine_core::u512::U512;
use engine_core::utils::{decimal_string, parse_decimal_str};

const MAX_DEC: &str = "13407807929942597099574024998205846127479365820592393377723561443721764030073546976801874298166903427690031858186486050853753882811946569946433649006084095";

fn max() -> U512 {
    parse_decimal_str(MAX_DEC).unwrap()
}

#[test]
fn u512_from_u64_round_trips() {
    assert_eq!(U512::from_u64(42).to_u64(), Some(42));
    assert_eq!(U512::from_u64(u64::MAX).to_u64(), Some(u64::MAX));
    assert_eq!(U512::zero().to_u64(), Some(0));
    assert_eq!(U512::zero(), U512::from_u64(0));
}

#[test]
fn u512_from_u128_round_trips() {
    assert_eq!(U512::from_u128(u128::MAX).to_u128(), Some(u128::MAX));
    assert_eq!(U512::from_u128(u128::MAX).to_u64(), None);
    assert_eq!(U512::from_u128(1 << 64).to_u64(), None);
    assert_eq!(U512::from_u128(7), U512::from_u64(7));
}

#[test]
fn u512_is_zero_only_for_zero() {
    assert!(U512::zero().is_zero());
    assert!(!U512::from_u64(1).is_zero());
    assert!(!U512::from_u128(1 << 100).is_zero());
}

#[test]
fn u512_compares_by_value() {
    let small = U512::from_u64(u64::MAX);
    let large = U512::from_u128(1 << 64);
    assert!(small.lt(&large));
    assert!(!large.lt(&small));
    assert!(!small.lt(&small));
    assert!(small.le(&small));
    assert!(small.le(&large));
    assert!(!large.le(&small));
    assert!(large.lt(&max()));
}

#[test]
fn u512_addition_carries_across_limbs() {
    let a = U512::from_u64(u64::MAX);
    let sum = a.checked_add(U512::from_u64(1)).unwrap();
    assert_eq!(sum, U512::from_u128(1 << 64));
    let b = U512::from_u128(u128::MAX);
    let sum = b.checked_add(U512::from_u64(1)).unwrap();
    assert_eq!(decimal_string(sum), "340282366920938463463374607431768211456");
}

#[test]
fn u512_addition_detects_overflow() {
    assert_eq!(max().checked_add(U512::from_u64(1)), None);
    assert_eq!(max().checked_add(U512::zero()), Some(max()));
    assert_eq!(max().overflowing_add(U512::from_u64(1)), (U512::zero(), true));
    assert_eq!(U512::from_u64(2).overflowing_add(U512::from_u64(3)), (U512::from_u64(5), false));
}

#[test]
fn u512_wrapping_addition_wraps() {
    assert_eq!(max().wrapping_add(U512::from_u64(1)), U512::zero());
    assert_eq!(max().wrapping_add(U512::from_u64(10)), U512::from_u64(9));
    assert_eq!(U512::from_u64(4).wrapping_add(U512::from_u64(5)), U512::from_u64(9));
}

#[test]
fn u512_subtraction_borrows_across_limbs() {
    let a = U512::from_u128(1 << 64);
    assert_eq!(a.checked_sub(U512::from_u64(1)), Some(U512::from_u64(u64::MAX)));
    assert_eq!(a.checked_sub(a), Some(U512::zero()));
    assert_eq!(U512::from_u64(1).checked_sub(U512::from_u64(2)), None);
    assert_eq!(U512::zero().checked_sub(max()), None);
}

#[test]
fn u512_multiplies_and_adds() {
    let n = U512::from_u64(u64::MAX);
    let product = n.checked_mul_add_u64(u64::MAX, 5).unwrap();
    let expected = (u64::MAX as u128) * (u64::MAX as u128) + 5;
    assert_eq!(product, U512::from_u128(expected));
    assert_eq!(U512::from_u64(12).checked_mul_add_u64(10, 3), Some(U512::from_u64(123)));
    assert_eq!(max().checked_mul_add_u64(1, 1), None);
    assert_eq!(max().checked_mul_add_u64(2, 0), None);
    assert_eq!(max().checked_mul_add_u64(1, 0), Some(max()));
}

#[test]
fn u512_divides_by_a_small_number() {
    assert_eq!(U512::from_u64(123).div_rem_u64(10), (U512::from_u64(12), 3));
    assert_eq!(U512::from_u64(9).div_rem_u64(10), (U512::zero(), 9));
    let n = U512::from_u128(u128::MAX);
    let (q, r) = n.div_rem_u64(7);
    assert_eq!(q, U512::from_u128(u128::MAX / 7));
    assert_eq!(r as u128, u128::MAX % 7);
    let (q, r) = max().div_rem_u64(u64::MAX);
    assert_eq!(q.checked_mul_add_u64(u64::MAX, r), Some(max()));
}

#[test]
fn decimal_notation_round_trips() {
    assert_eq!(decimal_string(U512::zero()), "0");
    assert_eq!(decimal_string(U512::from_u64(7)), "7");
    assert_eq!(decimal_string(U512::from_u64(10)), "10");
    assert_eq!(decimal_string(U512::from_u64(1_000_000)), "1000000");
    assert_eq!(decimal_string(U512::from_u64(u64::MAX)), "18446744073709551615");
    assert_eq!(decimal_string(max()), MAX_DEC);
    assert_eq!(parse_decimal_str("18446744073709551616"), Some(U512::from_u128(1 << 64)));
    assert_eq!(parse_decimal_str("0"), Some(U512::zero()));
    assert_eq!(parse_decimal_str("007"), Some(U512::from_u64(7)));
}

#[test]
fn decimal_notation_rejects_what_is_no_number() {
    assert_eq!(parse_decimal_str(""), None);
    assert_eq!(parse_decimal_str("12a"), None);
    assert_eq!(parse_decimal_str("-1"), None);
    assert_eq!(parse_decimal_str(" 1"), None);
    assert_eq!(parse_decimal_str("١٢"), None);
    let too_large = "13407807929942597099574024998205846127479365820592393377723561443721764030073546976801874298166903427690031858186486050853753882811946569946433649006084096";
    assert_eq!(parse_decimal_str(too_large), None);
    let much_too_large = format!("{}0", MAX_DEC);
    assert_eq!(parse_decimal_str(&much_too_large), None);
}

#[test]
fn u256_wraps_at_two_to_the_256() {
    let low = U256::from_u128(u128::MAX);
    let sum = low.wrapping_add(U256::from_u128(1));
    assert_eq!(sum.to_u128(), None);
    assert_ne!(sum, U256::zero());
    let mut n = U256::from_u128(1);
    for _ in 0..256 {
        n = n.wrapping_add(n);
    }
    assert_eq!(n, U256::zero());
    let mut m = U256::from_u128(1);
    for _ in 0..255 {
        m = m.wrapping_add(m);
    }
    assert_ne!(m, U256::zero());
    assert_eq!(m.wrapping_add(m), U256::zero());
    assert_eq!(U256::from_u128(3).wrapping_add(U256::from_u128(4)), U256::from_u128(7));
    assert_eq!(U256::from_u128(9).to_u128(), Some(9));
}
