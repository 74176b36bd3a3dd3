//! What holds of the contract whatever the state and the call: proved once,
//! over the operations of [`crate::model`], for every contract that keeps to
//! them.

use crate::amount::{amount_limit, lemma_pow256_grows, pow256, MAX_AMOUNT_BYTES};
use crate::calc::{
    commission_of, lemma_commission_at_most_used, sum_amounts, total_amount,
    COMMISSION_RATE_PERCENT,
};
use crate::effect::{ActionView, EventView};
use crate::error::ContractError;
use crate::link::{PaymentView, Status};
use crate::model::{
    cancel, complete, create_link, disable, enable, required_amount, set_commission_rate,
    state_after, valid_state, ContractState, Operation,
};
use vstd::prelude::*;

verus! {

/// What a payer has to send is the sum of the payments and one percent of
/// it, rounded down, and so never less than the sum.
pub proof fn law_total_covers_sum(payments: Seq<PaymentView>)
    ensures
        total_amount(payments) >= sum_amounts(payments),
        total_amount(payments) == sum_amounts(payments) + sum_amounts(payments) * 1 / 100,
{
}

/// The limit of an amount is far away: a list of payments whose sum fits 64
/// bits asks its payer for less.
pub proof fn law_sums_of_64_bits_fit(payments: Seq<PaymentView>)
    requires
        sum_amounts(payments) <= u64::MAX,
    ensures
        total_amount(payments) < amount_limit(),
{
    lemma_commission_at_most_used(sum_amounts(payments), COMMISSION_RATE_PERCENT as nat);
    reveal_with_fuel(pow256, 10);
    lemma_pow256_grows(9, MAX_AMOUNT_BYTES as nat);
}

/// Paying a pending link with exactly the amount it asks for completes it:
/// each destination is sent its own amount, in the order of the link, and
/// the payer gets back what is left of the value after the payments and the
/// commission at the contract's own rate.
///
/// The contract has to be switched on, and its own rate must not take more
/// than the quoted one percent does: otherwise the value does not cover the
/// commission and the call fails.
pub proof fn law_exact_payment_completes(
    s: ContractState,
    id: Seq<char>,
    caller: Seq<u8>,
    call_value: nat,
)
    requires
        s.enabled,
        s.links.dom().contains(id),
        s.links[id].status == Status::Pending,
        call_value == total_amount(s.links[id].payments),
        commission_of(sum_amounts(s.links[id].payments), s.commission_rate) <= commission_of(
            sum_amounts(s.links[id].payments),
            COMMISSION_RATE_PERCENT as nat,
        ),
    ensures
        complete(s, id, caller, call_value) matches Ok((next, settlement)) && {
            let payments = s.links[id].payments;
            let used_amount = sum_amounts(payments);
            &&& next.links[id].status == Status::Completed
            &&& settlement.used_amount == used_amount
            &&& settlement.actions.len() == 2 * payments.len() + 2
            &&& forall|i: int|
                0 <= i < payments.len() ==> settlement.actions[2 * i] == (ActionView::Transfer {
                    to: (#[trigger] payments[i]).destination,
                    amount: payments[i].amount,
                })
            &&& settlement.refund == call_value - used_amount - commission_of(
                used_amount,
                s.commission_rate,
            )
            &&& settlement.actions[2 * (payments.len() as int)] == (ActionView::Transfer {
                to: caller,
                amount: settlement.refund,
            })
        },
{
}

/// A settlement splits the value that came in without rest: what goes to the
/// destinations, what is kept and what goes back add up to it, and what is
/// kept is the commission on what goes out, at the contract's own rate.
pub proof fn law_settlement_splits_value(
    s: ContractState,
    id: Seq<char>,
    caller: Seq<u8>,
    call_value: nat,
)
    requires
        complete(s, id, caller, call_value) is Ok,
    ensures
        complete(s, id, caller, call_value) matches Ok((_, settlement)) && {
            &&& settlement.used_amount == sum_amounts(s.links[id].payments)
            &&& settlement.commission == settlement.used_amount * s.commission_rate / 100
            &&& settlement.used_amount + settlement.commission + settlement.refund == call_value
        },
{
}

/// A payment is never taken for less than the link asks for: a value below
/// the required amount fails for want of funds, and nothing changes.
pub proof fn law_underpayment_refused(
    s: ContractState,
    id: Seq<char>,
    caller: Seq<u8>,
    call_value: nat,
)
    requires
        s.enabled,
        required_amount(s, id) matches Ok(required) && call_value < required,
    ensures
        complete(s, id, caller, call_value) matches Err(ContractError::InsufficientFunds),
        state_after(s, Operation::Complete { id, caller, call_value }) == s,
{
}

/// A link is paid once: after a payment that went through, every further
/// payment of the same link fails with `InvalidStatus`.
pub proof fn law_second_payment_refused(
    s: ContractState,
    id: Seq<char>,
    caller: Seq<u8>,
    call_value: nat,
    next_caller: Seq<u8>,
    next_value: nat,
)
    requires
        complete(s, id, caller, call_value) is Ok,
    ensures
        complete(
            state_after(s, Operation::Complete { id, caller, call_value }),
            id,
            next_caller,
            next_value,
        ) matches Err(ContractError::InvalidStatus),
{
}

/// Only its creator withdraws a link: on a contract that is switched on,
/// any other caller fails with `Unauthorized`, whatever the link's status.
pub proof fn law_cancel_by_stranger_refused(s: ContractState, id: Seq<char>, caller: Seq<u8>)
    requires
        s.enabled,
        s.links.dom().contains(id),
        caller != s.links[id].creator,
    ensures
        cancel(s, id, caller) matches Err(ContractError::Unauthorized),
{
}

/// The creator of a pending link withdraws it: the link is `Cancelled`, and
/// nothing else changes.
pub proof fn law_creator_cancels_pending(s: ContractState, id: Seq<char>, caller: Seq<u8>)
    requires
        s.enabled,
        s.links.dom().contains(id),
        s.links[id].status == Status::Pending,
        caller == s.links[id].creator,
    ensures
        cancel(s, id, caller) matches Ok((next, event)) && {
            &&& next.links[id].status == Status::Cancelled
            &&& next.links[id].payments == s.links[id].payments
            &&& next.links[id].creator == s.links[id].creator
            &&& next.links.dom() == s.links.dom()
            &&& forall|other: Seq<char>|
                other != id && s.links.dom().contains(other) ==> next.links[other]
                    == s.links[other]
            &&& next.enabled == s.enabled
            &&& next.owner == s.owner
            &&& next.commission_rate == s.commission_rate
            &&& event == (EventView::CancelledPayment { payment_id: id })
        },
{
    let next = cancel(s, id, caller)->Ok_0.0;
    assert(next.links.dom() =~= s.links.dom());
}

/// A withdrawn link cannot be paid: after a withdrawal that went through,
/// every payment of the link fails with `InvalidStatus`.
pub proof fn law_cancelled_link_not_payable(
    s: ContractState,
    id: Seq<char>,
    caller: Seq<u8>,
    payer: Seq<u8>,
    call_value: nat,
)
    requires
        cancel(s, id, caller) is Ok,
    ensures
        complete(
            state_after(s, Operation::Cancel { id, caller }),
            id,
            payer,
            call_value,
        ) matches Err(ContractError::InvalidStatus),
{
}

/// The owner of a contract that is switched on sets any rate up to 100
/// percent, and no rate above it.
pub proof fn law_rate_at_most_100(s: ContractState, rate: nat)
    requires
        s.enabled,
    ensures
        rate <= 100 ==> (set_commission_rate(s, rate, s.owner) matches Ok(next) && next
            == (ContractState { commission_rate: rate, ..s })),
        rate > 100 ==> set_commission_rate(s, rate, s.owner) matches Err(
            ContractError::InvalidCommissionRate,
        ),
{
}

/// A contract that was switched off stores no links: after the switch-off
/// went through, every attempt fails with `ContractDisabled`.
pub proof fn law_disabled_contract_stores_nothing(
    s: ContractState,
    owner: Seq<u8>,
    id: Seq<char>,
    payments: Seq<PaymentView>,
    caller: Seq<u8>,
)
    requires
        disable(s, owner) is Ok,
    ensures
        create_link(state_after(s, Operation::Disable { caller: owner }), id, payments, caller)
            matches Err(ContractError::ContractDisabled),
{
}

/// A contract that is switched on cannot be switched on: the call fails
/// with `AlreadyEnabled`, whoever makes it.
pub proof fn law_enabled_contract_not_enabled_again(s: ContractState, caller: Seq<u8>)
    requires
        s.enabled,
    ensures
        enable(s, caller) matches Err(ContractError::AlreadyEnabled),
{
}

/// The rate stays a percentage: no call takes it above 100.
pub proof fn law_rate_stays_percentage(s: ContractState, op: Operation)
    requires
        s.commission_rate <= 100,
    ensures
        state_after(s, op).commission_rate <= 100,
{
}

/// A stored link keeps its payments and its creator, and its status only
/// ever goes from `Pending` to `Completed` or to `Cancelled`: no call takes
/// a link back to `Pending` or out of a final status. The one exception is
/// a new link that is stored under the id of an old one.
pub proof fn law_status_only_leaves_pending(s: ContractState, op: Operation, id: Seq<char>)
    requires
        s.links.dom().contains(id),
        !(op matches Operation::CreateLink { id: created, .. } && created == id && s.enabled),
    ensures
        state_after(s, op).links.dom().contains(id),
        state_after(s, op).links[id].payments == s.links[id].payments,
        state_after(s, op).links[id].creator == s.links[id].creator,
        state_after(s, op).links[id].status != s.links[id].status ==> {
            &&& s.links[id].status == Status::Pending
            &&& state_after(s, op).links[id].status != Status::Pending
        },
{
}

/// A valid state stays valid under every call; a new link has to ask its
/// payer for less than the limit of an amount.
pub proof fn law_state_stays_valid(s: ContractState, op: Operation)
    requires
        valid_state(s),
        op matches Operation::CreateLink { payments, .. } ==> total_amount(payments)
            < amount_limit(),
    ensures
        valid_state(state_after(s, op)),
{
}

} // verus!
