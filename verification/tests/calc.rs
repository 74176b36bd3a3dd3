use split_payments::address::Address;
use split_payments::amount::{Amount, MAX_AMOUNT_BYTES};
use split_payments::calc::{
    checked_commission, checked_sum, checked_total_amount, compute_commission,
    compute_total_amount, COMMISSION_RATE_PERCENT,
};
use split_payments::link::{IndividualPayment, Payments};

fn pay(amount: Amount) -> IndividualPayment {
    IndividualPayment { amount, destination: Address::new([9; 32]) }
}

fn pays(amounts: &[u64]) -> Vec<IndividualPayment> {
    amounts.iter().map(|a| pay(Amount::from_u64(*a))).collect()
}

fn list(amounts: &[u64]) -> Payments {
    Payments::new(pays(amounts)).unwrap()
}

#[test]
fn quoted_rate_is_one_percent() {
    assert_eq!(COMMISSION_RATE_PERCENT, 1);
}

#[test]
fn total_of_100_and_50_is_151() {
    assert_eq!(compute_total_amount(&list(&[100, 50])).to_u64(), Some(151));
}

#[test]
fn total_is_sum_plus_one_percent_rounded_down() {
    for amounts in [
        vec![],
        vec![0],
        vec![1],
        vec![99],
        vec![100],
        vec![199],
        vec![200],
        vec![1, 2, 3, 4],
        vec![50, 50],
        vec![33, 33, 33],
        vec![1_000_000, 2_345_678, 9],
        vec![u64::MAX / 2, 12_345],
    ] {
        let sum: u64 = amounts.iter().sum();
        let total = compute_total_amount(&list(&amounts));
        assert_eq!(total.to_u64(), Some(sum + sum / 100));
        assert!(total.ge(&Amount::from_u64(sum)));
    }
}

#[test]
fn total_of_no_payments_is_zero() {
    assert_eq!(compute_total_amount(&list(&[])).to_u64(), Some(0));
}

#[test]
fn total_below_100_has_no_commission() {
    assert_eq!(compute_total_amount(&list(&[99])).to_u64(), Some(99));
    assert_eq!(compute_total_amount(&list(&[100])).to_u64(), Some(101));
}

#[test]
fn total_goes_beyond_64_bits() {
    let payments = list(&[u64::MAX, u64::MAX]);
    let total = compute_total_amount(&payments);
    assert_eq!(total.to_u64(), None);
    let sum: u128 = 2 * (u64::MAX as u128);
    let expected = sum + sum / 100;
    assert_eq!(total, Amount::from_bytes_be(expected.to_be_bytes().to_vec()).unwrap());
}

#[test]
fn checked_sum_adds_the_amounts() {
    assert_eq!(checked_sum(&pays(&[100, 50])), Some(Amount::from_u64(150)));
    assert_eq!(checked_sum(&pays(&[])), Some(Amount::zero()));
    assert_eq!(checked_sum(&pays(&[7])), Some(Amount::from_u64(7)));
}

#[test]
fn checked_sum_stops_at_the_limit() {
    let top = Amount::from_bytes_be(vec![0xff; MAX_AMOUNT_BYTES]).unwrap();
    assert!(checked_sum(&vec![pay(top.clone())]).is_some());
    assert!(checked_sum(&vec![pay(top.clone()), pay(Amount::from_u64(1))]).is_none());
    assert!(checked_sum(&vec![pay(Amount::from_u64(1)), pay(top)]).is_none());
}

#[test]
fn checked_total_agrees_with_total() {
    assert_eq!(checked_total_amount(&pays(&[100, 50])), Some(Amount::from_u64(151)));
    assert_eq!(checked_total_amount(&pays(&[])), Some(Amount::zero()));
}

#[test]
fn checked_total_stops_at_the_limit() {
    let top = Amount::from_bytes_be(vec![0xff; MAX_AMOUNT_BYTES]).unwrap();
    assert!(checked_total_amount(&vec![pay(top)]).is_none());
    let mut bytes = vec![0xff; MAX_AMOUNT_BYTES];
    bytes[0] = 0x7f;
    let half = Amount::from_bytes_be(bytes).unwrap();
    assert!(checked_total_amount(&vec![pay(half)]).is_some());
}

#[test]
fn commission_is_rate_percent_rounded_down() {
    let cases: [(u64, u64, u64); 10] = [
        (150, 1, 1),
        (150, 0, 0),
        (150, 2, 3),
        (150, 100, 150),
        (150, 50, 75),
        (99, 1, 0),
        (199, 1, 1),
        (1, 99, 0),
        (0, 100, 0),
        (12_345, 7, 864),
    ];
    for (used, rate, expected) in cases {
        let commission = compute_commission(&Amount::from_u64(used), &Amount::from_u64(rate));
        assert_eq!(commission.to_u64(), Some(expected));
    }
}

#[test]
fn commission_above_100_percent_is_still_computed() {
    let commission = checked_commission(&Amount::from_u64(10), &Amount::from_u64(250));
    assert_eq!(commission, Some(Amount::from_u64(25)));
}

#[test]
fn payments_keep_their_items_in_order() {
    let payments = list(&[3, 1, 2]);
    assert_eq!(payments.items(), &pays(&[3, 1, 2]));
    assert_eq!(payments.clone(), payments);
    assert_eq!(list(&[]).items().len(), 0);
}

#[test]
fn payments_that_ask_for_the_limit_are_no_list() {
    let top = Amount::from_bytes_be(vec![0xff; MAX_AMOUNT_BYTES]).unwrap();
    assert!(Payments::new(vec![pay(top.clone())]).is_none());
    assert!(Payments::new(vec![pay(Amount::from_u64(1)), pay(top)]).is_none());
    let mut bytes = vec![0xff; MAX_AMOUNT_BYTES];
    bytes[0] = 0x7f;
    let half = Amount::from_bytes_be(bytes).unwrap();
    assert!(Payments::new(vec![pay(half)]).is_some());
}

#[test]
fn checked_commission_stops_at_the_limit() {
    let top = Amount::from_bytes_be(vec![0xff; MAX_AMOUNT_BYTES]).unwrap();
    assert_eq!(checked_commission(&top, &Amount::from_u64(100)), Some(top.clone()));
    assert!(checked_commission(&top, &Amount::from_u64(200)).is_none());
    assert_eq!(
        checked_commission(&Amount::from_u64(150), &Amount::from_u64(1)),
        Some(Amount::from_u64(1))
    );
}
