use multiversx_sc::types::BigUint;
use multiversx_sc_scenario::api::StaticApi;
use split_payments::amount::{Amount, MAX_AMOUNT_BYTES};

/// 2^64, one more than a `u64` holds.
fn two_to_64() -> Amount {
    Amount::from_bytes_be(vec![1, 0, 0, 0, 0, 0, 0, 0, 0]).unwrap()
}

/// The largest amount: `MAX_AMOUNT_BYTES` bytes of 0xff.
fn largest() -> Amount {
    Amount::from_bytes_be(vec![0xff; MAX_AMOUNT_BYTES]).unwrap()
}

#[test]
fn from_u64_and_back() {
    for v in [0u64, 1, 99, 100, 255, 256, 65_535, 65_536, 1u64 << 32, u64::MAX - 1, u64::MAX] {
        assert_eq!(Amount::from_u64(v).to_u64(), Some(v));
    }
}

#[test]
fn zero_is_zero() {
    assert_eq!(Amount::zero().to_u64(), Some(0));
    assert_eq!(Amount::zero(), Amount::from_u64(0));
    assert_eq!(Amount::zero().to_bytes_be().iter().all(|b| *b == 0), true);
}

#[test]
fn to_u64_of_a_larger_amount_is_none() {
    assert_eq!(two_to_64().to_u64(), None);
    assert_eq!(largest().to_u64(), None);
}

#[test]
fn bytes_are_read_big_endian() {
    assert_eq!(Amount::from_bytes_be(vec![1, 2]).unwrap().to_u64(), Some(258));
    assert_eq!(Amount::from_bytes_be(vec![]).unwrap().to_u64(), Some(0));
    assert_eq!(
        Amount::from_bytes_be(vec![0x12, 0x34, 0x56, 0x78, 0x9a, 0xbc, 0xde, 0xf0])
            .unwrap()
            .to_u64(),
        Some(0x1234_5678_9abc_def0)
    );
}

#[test]
fn leading_zero_bytes_do_not_count() {
    let padded = Amount::from_bytes_be(vec![0, 0, 0, 0, 0, 0, 0, 0, 0, 0, 7]).unwrap();
    assert_eq!(padded.to_u64(), Some(7));
    assert_eq!(padded, Amount::from_u64(7));
    assert!(padded.same(&Amount::from_u64(7)));
}

#[test]
fn too_many_bytes_are_no_amount() {
    assert!(Amount::from_bytes_be(vec![0; MAX_AMOUNT_BYTES]).is_some());
    assert!(Amount::from_bytes_be(vec![0; MAX_AMOUNT_BYTES + 1]).is_none());
}

#[test]
fn to_bytes_be_denotes_the_amount() {
    let bytes = Amount::from_u64(0x0102_0304).to_bytes_be();
    assert_eq!(BigUint::<StaticApi>::from_bytes_be(&bytes).to_u64(), Some(0x0102_0304));
    let back = Amount::from_bytes_be(bytes).unwrap();
    assert_eq!(back.to_u64(), Some(0x0102_0304));
}

#[test]
fn amounts_agree_with_the_outside_numbers() {
    let a = BigUint::<StaticApi>::from(123_456_789u64);
    let b = BigUint::<StaticApi>::from(987_654_321u64);
    let x = Amount::from_bytes_be(a.to_bytes_be().as_slice().to_vec()).unwrap();
    let y = Amount::from_bytes_be(b.to_bytes_be().as_slice().to_vec()).unwrap();
    let sum = x.checked_add(&y).unwrap();
    assert_eq!(BigUint::<StaticApi>::from_bytes_be(&sum.to_bytes_be()), a + b);
}

#[test]
fn ge_orders_by_value() {
    let five = Amount::from_u64(5);
    let seven = Amount::from_u64(7);
    assert!(seven.ge(&five));
    assert!(!five.ge(&seven));
    assert!(five.ge(&five));
    assert!(two_to_64().ge(&Amount::from_u64(u64::MAX)));
    assert!(!Amount::from_u64(u64::MAX).ge(&two_to_64()));
}

#[test]
fn same_and_eq_go_by_value() {
    assert!(Amount::from_u64(5).same(&Amount::from_bytes_be(vec![5]).unwrap()));
    assert!(!Amount::from_u64(5).same(&Amount::from_u64(6)));
    assert_eq!(Amount::from_u64(300), Amount::from_bytes_be(vec![1, 44]).unwrap());
    assert_ne!(Amount::from_u64(300), Amount::from_u64(301));
}

#[test]
fn clone_keeps_the_value() {
    let a = two_to_64();
    assert_eq!(a.clone(), a);
    assert_eq!(Amount::from_u64(42).clone().to_u64(), Some(42));
}

#[test]
fn checked_add_sums() {
    let sum = Amount::from_u64(2).checked_add(&Amount::from_u64(3)).unwrap();
    assert_eq!(sum.to_u64(), Some(5));
    let carried = Amount::from_u64(u64::MAX).checked_add(&Amount::from_u64(1)).unwrap();
    assert_eq!(carried, two_to_64());
    assert_eq!(carried.to_u64(), None);
}

#[test]
fn checked_add_stops_at_the_limit() {
    let top = largest();
    assert!(top.checked_add(&Amount::zero()).is_some());
    assert!(top.checked_add(&Amount::from_u64(1)).is_none());
    assert!(Amount::from_u64(1).checked_add(&top).is_none());
}

#[test]
fn checked_sub_subtracts() {
    let diff = Amount::from_u64(151).checked_sub(&Amount::from_u64(150)).unwrap();
    assert_eq!(diff.to_u64(), Some(1));
    let none_left = Amount::from_u64(9).checked_sub(&Amount::from_u64(9)).unwrap();
    assert_eq!(none_left.to_u64(), Some(0));
    let below = two_to_64().checked_sub(&Amount::from_u64(1)).unwrap();
    assert_eq!(below.to_u64(), Some(u64::MAX));
}

#[test]
fn checked_sub_of_a_larger_amount_is_none() {
    assert!(Amount::from_u64(150).checked_sub(&Amount::from_u64(151)).is_none());
    assert!(Amount::zero().checked_sub(&Amount::from_u64(1)).is_none());
}

#[test]
fn checked_mul_div_rounds_down() {
    let cases: [(u64, u64, u64, u64); 5] =
        [(7, 3, 2, 10), (150, 1, 100, 1), (99, 1, 100, 0), (0, 5, 3, 0), (10, 10, 3, 33)];
    for (a, factor, divisor, expected) in cases {
        let r = Amount::from_u64(a)
            .checked_mul_div(&Amount::from_u64(factor), &Amount::from_u64(divisor));
        assert_eq!(r, Some(Amount::from_u64(expected)));
    }
}

#[test]
fn checked_mul_div_takes_a_product_beyond_64_bits() {
    let r = Amount::from_u64(u64::MAX)
        .checked_mul_div(&Amount::from_u64(100), &Amount::from_u64(100));
    assert_eq!(r, Some(Amount::from_u64(u64::MAX)));
    let r = two_to_64().checked_mul_div(&two_to_64(), &two_to_64());
    assert_eq!(r, Some(two_to_64()));
}

#[test]
fn checked_mul_div_by_zero_is_none() {
    assert!(Amount::from_u64(7).checked_mul_div(&Amount::from_u64(3), &Amount::zero()).is_none());
    assert!(Amount::zero().checked_mul_div(&Amount::zero(), &Amount::zero()).is_none());
    let padded_zero = Amount::from_bytes_be(vec![0, 0]).unwrap();
    assert!(Amount::from_u64(7).checked_mul_div(&Amount::from_u64(3), &padded_zero).is_none());
}

#[test]
fn checked_mul_div_stops_at_the_limit() {
    let top = largest();
    let one = Amount::from_u64(1);
    let two = Amount::from_u64(2);
    assert_eq!(top.checked_mul_div(&two, &two), Some(largest()));
    assert!(top.checked_mul_div(&two, &one).is_none());
}
