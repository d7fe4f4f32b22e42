use tari_dan::shard::Shard;
use tari_dan::uint::U256;

#[test]
fn committee_is_properly_computed() {
    for num_of_committees in 1..100u32 {
        let mut previous_end = U256::zero();
        let mut min_committee_size = U256::max_value();
        let mut max_committee_size = U256::zero();
        for bucket_index in 0..num_of_committees {
            let bucket = Shard::from(bucket_index);
            let range = bucket.to_substate_address_range(num_of_committees);
            if bucket_index > 0 {
                assert_eq!(
                    range.start().to_u256(),
                    previous_end.checked_add(U256::one()).unwrap(),
                    "Bucket should start where the previous one ended+1"
                );
            }
            let size = range.end().to_u256().checked_sub(range.start().to_u256()).unwrap();
            min_committee_size = min_committee_size.minimum(size);
            max_committee_size = max_committee_size.maximum(size);
            previous_end = range.end().to_u256();
        }
        assert!(
            num_of_committees <= 1 ||
                max_committee_size.less_or_equal(&min_committee_size.checked_add(U256::one()).unwrap()),
            "Committee sizes should be balanced {:?} {:?}",
            min_committee_size,
            max_committee_size
        );
        assert_eq!(previous_end, U256::max_value(), "Last bucket should end at U256::MAX");
    }
}

#[test]
fn no_committees_cover_the_whole_address_space() {
    let range = Shard::from(7).to_substate_address_range(0);
    assert_eq!(range.start().to_u256(), U256::zero());
    assert_eq!(range.end().to_u256(), U256::max_value());
}

#[test]
fn one_committee_covers_the_whole_address_space() {
    let range = Shard::from(0).to_substate_address_range(1);
    assert_eq!(range.start().to_u256(), U256::zero());
    assert_eq!(range.end().to_u256(), U256::max_value());
}

#[test]
fn three_committees_split_where_expected() {
    // 2^256 - 1 = 3q exactly, so the first two buckets hold q addresses and the last q + 1.
    let (q, r) = U256::max_value().div_rem_u32(3);
    assert_eq!(r, 0);
    let r0 = Shard::from(0).to_substate_address_range(3);
    let r1 = Shard::from(1).to_substate_address_range(3);
    let r2 = Shard::from(2).to_substate_address_range(3);
    assert_eq!(r0.start().to_u256(), U256::zero());
    assert_eq!(r0.end().to_u256(), q.checked_sub(U256::one()).unwrap());
    assert_eq!(r1.start().to_u256(), q);
    assert_eq!(r1.end().to_u256(), q.checked_mul_u32(2).unwrap().checked_sub(U256::one()).unwrap());
    assert_eq!(r2.start().to_u256(), q.checked_mul_u32(2).unwrap());
    assert_eq!(r2.end().to_u256(), U256::max_value());
}

#[test]
fn ten_committees_spread_the_remainder_over_the_first_buckets() {
    // 2^256 - 1 = 10q + 5: buckets 0..5 start at q*b + b, the rest at q*b + 5.
    let (q, r) = U256::max_value().div_rem_u32(10);
    assert_eq!(r, 5);
    let r3 = Shard::from(3).to_substate_address_range(10);
    assert_eq!(r3.start().to_u256(), q.checked_mul_u32(3).unwrap().checked_add(U256::from_u32(3)).unwrap());
    assert_eq!(r3.end().to_u256(), q.checked_mul_u32(4).unwrap().checked_add(U256::from_u32(3)).unwrap());
    let r7 = Shard::from(7).to_substate_address_range(10);
    assert_eq!(r7.start().to_u256(), q.checked_mul_u32(7).unwrap().checked_add(U256::from_u32(5)).unwrap());
    assert_eq!(
        r7.end().to_u256(),
        q.checked_mul_u32(8).unwrap().checked_add(U256::from_u32(4)).unwrap()
    );
}

#[test]
fn shard_index_and_comparison_with_u32() {
    let s = Shard::from(42);
    assert_eq!(s.as_u32(), 42);
    assert!(s == 42u32);
    assert!(42u32 == s);
    assert!(s != 41u32);
}
