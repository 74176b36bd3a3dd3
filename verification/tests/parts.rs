use split_payments::address::Address;
use split_payments::amount::Amount;
use split_payments::effect::{Action, Event};
use split_payments::error::ContractError;
use split_payments::link::{clone_payments, IndividualPayment, PaymentLink, Payments, Status};
use split_payments::settlement::settle;

fn party(tag: u8) -> Address {
    Address::new([tag; 32])
}

#[test]
fn address_keeps_its_bytes() {
    let mut bytes = [0u8; 32];
    for (i, b) in bytes.iter_mut().enumerate() {
        *b = i as u8;
    }
    assert_eq!(Address::new(bytes).to_bytes(), bytes);
    assert_eq!(Address::zero().to_bytes(), [0u8; 32]);
}

#[test]
fn addresses_are_the_same_when_all_bytes_are() {
    let a = party(7);
    let mut bytes = [7u8; 32];
    assert!(a.same(&Address::new(bytes)));
    assert_eq!(a, Address::new(bytes));
    bytes[31] = 8;
    assert!(!a.same(&Address::new(bytes)));
    assert_ne!(a, Address::new(bytes));
    bytes[31] = 7;
    bytes[0] = 6;
    assert!(!a.same(&Address::new(bytes)));
}

#[test]
fn every_error_has_its_message() {
    assert_eq!(ContractError::ContractDisabled.message(), "Contract is disabled");
    assert_eq!(ContractError::LinkNotFound.message(), "Payment link does not exist");
    assert_eq!(
        ContractError::InvalidStatus.message(),
        "Payment link does not have the required status"
    );
    assert_eq!(
        ContractError::InsufficientFunds.message(),
        "Not enough EGLD sent to complete payment (check required/minimum amount)"
    );
    assert_eq!(
        ContractError::Unauthorized.message(),
        "Caller is not allowed to call this function"
    );
    assert_eq!(
        ContractError::InvalidCommissionRate.message(),
        "Commission rate cannot be greater than 100%"
    );
    assert_eq!(ContractError::AlreadyEnabled.message(), "Contract is already enabled");
}

#[test]
fn clones_are_equal_to_what_they_came_from() {
    let payments = vec![
        IndividualPayment { amount: Amount::from_u64(100), destination: party(1) },
        IndividualPayment { amount: Amount::from_u64(50), destination: party(2) },
    ];
    assert_eq!(clone_payments(&payments), payments);
    assert_eq!(payments[0].clone(), payments[0]);
    let link = PaymentLink {
        payment_id: "rent".to_string(),
        payments: Payments::new(payments).unwrap(),
        status: Status::Cancelled,
        creator: party(3),
    };
    assert_eq!(link.clone(), link);
}

#[test]
fn settle_splits_the_value() {
    let payments = vec![
        IndividualPayment { amount: Amount::from_u64(1_000), destination: party(1) },
        IndividualPayment { amount: Amount::from_u64(234), destination: party(2) },
        IndividualPayment { amount: Amount::from_u64(5), destination: party(1) },
    ];
    let s = settle(
        &"order".to_string(),
        &payments,
        &party(9),
        &Amount::from_u64(2_000),
        &Amount::from_u64(7),
    )
    .unwrap();
    assert_eq!(s.used_amount.to_u64(), Some(1_239));
    assert_eq!(s.commission.to_u64(), Some(86));
    assert_eq!(s.refund.to_u64(), Some(675));
    assert_eq!(s.actions.len(), 8);
    assert_eq!(
        s.actions[4],
        Action::Transfer { to: party(1), amount: Amount::from_u64(5) }
    );
    assert_eq!(
        s.actions[5],
        Action::Emit(Event::IndividualPaymentCompleted {
            payment_id: "order".to_string(),
            from: party(9),
            destination: party(1),
            amount: Amount::from_u64(5),
        })
    );
    assert_eq!(
        s.actions[6],
        Action::Transfer { to: party(9), amount: Amount::from_u64(675) }
    );
    assert_eq!(
        s.actions[7],
        Action::Emit(Event::CompletedPayment { payment_id: "order".to_string() })
    );
}

#[test]
fn settle_needs_the_payments_and_the_commission_covered() {
    let payments =
        vec![IndividualPayment { amount: Amount::from_u64(200), destination: party(1) }];
    let rate = Amount::from_u64(5);
    let id = "x".to_string();
    assert!(settle(&id, &payments, &party(9), &Amount::from_u64(209), &rate).is_none());
    assert!(settle(&id, &payments, &party(9), &Amount::from_u64(199), &rate).is_none());
    let s = settle(&id, &payments, &party(9), &Amount::from_u64(210), &rate).unwrap();
    assert_eq!(s.refund.to_u64(), Some(0));
    assert_eq!(s.commission.to_u64(), Some(10));
}

#[test]
fn settle_takes_a_rate_above_100() {
    let payments =
        vec![IndividualPayment { amount: Amount::from_u64(10), destination: party(1) }];
    let rate = Amount::from_u64(300);
    let id = "x".to_string();
    assert!(settle(&id, &payments, &party(9), &Amount::from_u64(39), &rate).is_none());
    let s = settle(&id, &payments, &party(9), &Amount::from_u64(41), &rate).unwrap();
    assert_eq!(s.commission.to_u64(), Some(30));
    assert_eq!(s.refund.to_u64(), Some(1));
}
