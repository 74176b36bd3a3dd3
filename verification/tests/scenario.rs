use split_payments::{
    Action, Address, Amount, ContractError, Event, IndividualPayment, Ledger, Payments,
    SplitPaymentsContract, Status,
};

fn wallet(tag: u8) -> Address {
    Address::new([tag; 32])
}

fn payout(amount: u64, tag: u8) -> IndividualPayment {
    IndividualPayment { amount: Amount::from_u64(amount), destination: wallet(tag) }
}

#[test]
fn link_of_100_and_50_asks_for_151_and_settles() {
    let owner = wallet(1);
    let creator = wallet(2);
    let payer = wallet(3);
    let mut ledger = Ledger::new();
    ledger.init(owner);
    let payments = Payments::new(vec![payout(100, 10), payout(50, 11)]).unwrap();
    let created = ledger.create_payment_link("p1".to_string(), &payments, creator);
    assert_eq!(
        created,
        Ok(Event::CreatedPaymentLink { payment_id: "p1".to_string(), creator })
    );
    let required = ledger.get_required_amount("p1".to_string()).unwrap();
    assert_eq!(required.to_u64(), Some(151));

    let settlement = ledger
        .complete_payment("p1".to_string(), payer, Amount::from_u64(151))
        .unwrap();
    assert_eq!(settlement.used_amount.to_u64(), Some(150));
    assert_eq!(settlement.commission.to_u64(), Some(1));
    assert_eq!(settlement.refund.to_u64(), Some(0));
    assert_eq!(
        settlement.actions,
        vec![
            Action::Transfer { to: wallet(10), amount: Amount::from_u64(100) },
            Action::Emit(Event::IndividualPaymentCompleted {
                payment_id: "p1".to_string(),
                from: payer,
                destination: wallet(10),
                amount: Amount::from_u64(100),
            }),
            Action::Transfer { to: wallet(11), amount: Amount::from_u64(50) },
            Action::Emit(Event::IndividualPaymentCompleted {
                payment_id: "p1".to_string(),
                from: payer,
                destination: wallet(11),
                amount: Amount::from_u64(50),
            }),
            Action::Transfer { to: payer, amount: Amount::from_u64(0) },
            Action::Emit(Event::CompletedPayment { payment_id: "p1".to_string() }),
        ]
    );
    assert_eq!(ledger.get_payment_status("p1".to_string()), Ok(Status::Completed));
    assert_eq!(
        ledger.complete_payment("p1".to_string(), payer, Amount::from_u64(151)),
        Err(ContractError::InvalidStatus)
    );
}
