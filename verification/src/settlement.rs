//! Working out a settlement: the transfers and events that paying a link
//! calls for, and the split of the value that came with the payment.

use crate::address::Address;
use crate::amount::Amount;
use crate::calc::{checked_commission, checked_sum};
use crate::effect::{Action, Event, Settlement};
use crate::link::IndividualPayment;
use crate::model::{covers, settlement_actions, settlement_of};
use vstd::prelude::*;

verus! {

/// The settlement of the payments out of `call_value`, with the commission
/// at `commission_rate` percent; none where `call_value` does not cover the
/// payments and the commission.
pub fn settle(
    payment_id: &String,
    payments: &Vec<IndividualPayment>,
    payer: &Address,
    call_value: &Amount,
    commission_rate: &Amount,
) -> (r: Option<Settlement>)
    ensures
        r is Some <==> covers(payments.deep_view(), call_value@, commission_rate@),
        r matches Some(settlement) ==> settlement@ == settlement_of(
            payment_id@,
            payments.deep_view(),
            payer@,
            call_value@,
            commission_rate@,
        ),
{
    proof {
        use_type_invariant(call_value);
        call_value.lemma_below_limit();
    }
    let used_amount = match checked_sum(payments) {
        Some(sum) => sum,
        None => {
            return None;
        },
    };
    let commission = match checked_commission(&used_amount, commission_rate) {
        Some(commission) => commission,
        None => {
            return None;
        },
    };
    let rest = match call_value.checked_sub(&used_amount) {
        Some(rest) => rest,
        None => {
            return None;
        },
    };
    let refund = match rest.checked_sub(&commission) {
        Some(refund) => refund,
        None => {
            return None;
        },
    };
    let ghost expected = settlement_actions(payment_id@, payments.deep_view(), payer@, refund@);
    let mut actions: Vec<Action> = Vec::new();
    let mut i: usize = 0;
    while i < payments.len()
        invariant
            0 <= i <= payments.len(),
            actions@.len() == 2 * i,
            expected == settlement_actions(payment_id@, payments.deep_view(), payer@, refund@),
            forall|k: int| 0 <= k < 2 * i ==> (#[trigger] actions@[k])@ == expected[k],
        decreases payments.len() - i,
    {
        let payment = &payments[i];
        actions.push(Action::Transfer { to: payment.destination, amount: payment.amount.clone() });
        actions.push(
            Action::Emit(
                Event::IndividualPaymentCompleted {
                    payment_id: payment_id.clone(),
                    from: *payer,
                    destination: payment.destination,
                    amount: payment.amount.clone(),
                },
            ),
        );
        i += 1;
    }
    actions.push(Action::Transfer { to: *payer, amount: refund.clone() });
    actions.push(Action::Emit(Event::CompletedPayment { payment_id: payment_id.clone() }));
    assert(actions.deep_view() =~= expected);
    Some(Settlement { actions, used_amount, commission, refund })
}

} // verus!
