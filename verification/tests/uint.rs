use tari_dan::substate_address::SubstateAddress;
use tari_dan::uint::U256;

#[test]
fn u256_add_and_sub_carry_across_words() {
    let a = U256::from_u64(u64::MAX);
    let b = a.checked_add(U256::one()).unwrap();
    assert_eq!(b.checked_sub(U256::one()).unwrap(), a);
    assert!(a.less_than(&b));
    assert!(!b.less_than(&a));
    assert!(a.less_or_equal(&a));
}

#[test]
fn u256_overflow_and_underflow_are_refused() {
    assert_eq!(U256::max_value().checked_add(U256::one()), None);
    assert_eq!(U256::zero().checked_sub(U256::one()), None);
    assert_eq!(U256::max_value().checked_mul_u32(2), None);
    assert_eq!(U256::max_value().checked_add(U256::zero()), Some(U256::max_value()));
}

#[test]
fn u256_division_by_small_numbers() {
    let (q, r) = U256::max_value().div_rem_u32(3);
    // 2^256 - 1 is divisible by 3.
    assert_eq!(r, 0);
    assert_eq!(q.checked_mul_u32(3).unwrap(), U256::max_value());
    let (q, r) = U256::from_u64(1000).div_rem_u32(7);
    assert_eq!(q, U256::from_u32(142));
    assert_eq!(r, 6);
    let (q, r) = U256::max_value().div_rem_u32(10);
    assert_eq!(r, 5);
    assert_eq!(q.checked_mul_u32(10).unwrap().checked_add(U256::from_u32(5)).unwrap(), U256::max_value());
}

#[test]
fn u256_min_and_max() {
    let a = U256::from_u32(5);
    let b = U256::from_u32(9);
    assert_eq!(a.minimum(b), a);
    assert_eq!(b.minimum(a), a);
    assert_eq!(a.maximum(b), b);
    assert_eq!(b.maximum(a), b);
}

#[test]
fn substate_address_gives_back_its_number() {
    let x = U256::max_value().div_rem_u32(7).0;
    assert_eq!(SubstateAddress::from_u256(x).to_u256(), x);
    assert_eq!(SubstateAddress::zero().to_u256(), U256::zero());
}
