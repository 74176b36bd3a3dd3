//! The contract as mathematics: its state, the checks that guard each
//! operation, and what each operation makes of a state.
//!
//! Every check either passes or names the error it fails with. An operation
//! runs its checks in a fixed order and fails with the first error; only when
//! all have passed does it change the state or ask for a transfer.

use crate::amount::amount_limit;
use crate::calc::{commission_of, sum_amounts, total_amount, COMMISSION_RATE_PERCENT};
use crate::effect::{ActionView, EventView, SettlementView};
use crate::error::ContractError;
use crate::link::{LinkView, PaymentView, Status};
use vstd::prelude::*;

verus! {

/// All that the contract keeps between calls.
#[verifier::ext_equal]
pub struct ContractState {
    /// Whether the contract is switched on.
    pub enabled: bool,
    /// The account that may change the settings.
    pub owner: Seq<u8>,
    /// The percentage that is kept at settlement, from 0 to 100.
    pub commission_rate: nat,
    /// The payment links, by id.
    pub links: Map<Seq<char>, LinkView>,
}

/// What holds of the state between calls: the rate is a percentage, each
/// link is stored under its own id, and what a link asks of its payer is
/// below the limit of an amount.
pub open spec fn valid_state(s: ContractState) -> bool {
    &&& s.commission_rate <= 100
    &&& forall|id: Seq<char>| #[trigger]
        s.links.dom().contains(id) ==> {
            &&& s.links[id].payment_id == id
            &&& total_amount(s.links[id].payments) < amount_limit()
        }
}

/// The state of a contract that was never set up: switched off, owned by
/// nobody, with no commission and no links.
pub open spec fn blank_state() -> ContractState {
    ContractState {
        enabled: false,
        owner: Seq::new(32, |i: int| 0u8),
        commission_rate: 0,
        links: Map::empty(),
    }
}

/// The second check counts only if the first has passed.
pub open spec fn first_failure(
    first: Result<(), ContractError>,
    second: Result<(), ContractError>,
) -> Result<(), ContractError> {
    match first {
        Ok(_) => second,
        Err(e) => Err(e),
    }
}

/// Passes if the contract is switched on.
pub open spec fn require_enabled(s: ContractState) -> Result<(), ContractError> {
    if s.enabled {
        Ok(())
    } else {
        Err(ContractError::ContractDisabled)
    }
}

/// Passes if a link is stored under `id`.
pub open spec fn require_exists(s: ContractState, id: Seq<char>) -> Result<(), ContractError> {
    if s.links.dom().contains(id) {
        Ok(())
    } else {
        Err(ContractError::LinkNotFound)
    }
}

/// Passes if the link under `id` has the status `expected`; a missing link
/// fails as in [`require_exists`].
pub open spec fn require_status(s: ContractState, id: Seq<char>, expected: Status) -> Result<
    (),
    ContractError,
> {
    if !s.links.dom().contains(id) {
        Err(ContractError::LinkNotFound)
    } else if s.links[id].status != expected {
        Err(ContractError::InvalidStatus)
    } else {
        Ok(())
    }
}

/// Passes if `call_value` covers what the link under `id` asks of its payer;
/// a missing link fails as in [`require_exists`].
pub open spec fn require_funded(s: ContractState, id: Seq<char>, call_value: nat) -> Result<
    (),
    ContractError,
> {
    if !s.links.dom().contains(id) {
        Err(ContractError::LinkNotFound)
    } else if call_value < total_amount(s.links[id].payments) {
        Err(ContractError::InsufficientFunds)
    } else {
        Ok(())
    }
}

/// Passes if `caller` is the owner.
pub open spec fn require_owner(s: ContractState, caller: Seq<u8>) -> Result<(), ContractError> {
    if caller == s.owner {
        Ok(())
    } else {
        Err(ContractError::Unauthorized)
    }
}

/// Passes if `caller` made the link under `id`; a missing link fails as in
/// [`require_exists`].
pub open spec fn require_creator(s: ContractState, id: Seq<char>, caller: Seq<u8>) -> Result<
    (),
    ContractError,
> {
    if !s.links.dom().contains(id) {
        Err(ContractError::LinkNotFound)
    } else if caller != s.links[id].creator {
        Err(ContractError::Unauthorized)
    } else {
        Ok(())
    }
}

/// The state with the link under `id` moved to `status`.
pub open spec fn with_status(s: ContractState, id: Seq<char>, status: Status) -> ContractState {
    ContractState { links: s.links.insert(id, LinkView { status, ..s.links[id] }), ..s }
}

/// The state after set-up: `caller` owns the contract, which is switched on
/// and keeps the quoted rate. The links stay.
pub open spec fn initialize(s: ContractState, caller: Seq<u8>) -> ContractState {
    ContractState {
        enabled: true,
        owner: caller,
        commission_rate: COMMISSION_RATE_PERCENT as nat,
        links: s.links,
    }
}

/// Storing a link: a switched-on contract stores it as `Pending` under `id`,
/// in place of any link that was there, and reports it.
pub open spec fn create_link(
    s: ContractState,
    id: Seq<char>,
    payments: Seq<PaymentView>,
    caller: Seq<u8>,
) -> Result<(ContractState, EventView), ContractError> {
    match require_enabled(s) {
        Err(e) => Err(e),
        Ok(_) => Ok(
            (
                ContractState {
                    links: s.links.insert(
                        id,
                        LinkView {
                            payment_id: id,
                            payments,
                            status: Status::Pending,
                            creator: caller,
                        },
                    ),
                    ..s
                },
                EventView::CreatedPaymentLink { payment_id: id, creator: caller },
            ),
        ),
    }
}

/// The steps of a settlement, in order: for each payment its transfer and
/// then its event; then the refund to the payer; then the event that the
/// link is paid.
pub open spec fn settlement_actions(
    id: Seq<char>,
    payments: Seq<PaymentView>,
    payer: Seq<u8>,
    refund: nat,
) -> Seq<ActionView> {
    Seq::new(
        2 * payments.len() + 2,
        |k: int|
            if k < 2 * payments.len() {
                if k % 2 == 0 {
                    ActionView::Transfer {
                        to: payments[k / 2].destination,
                        amount: payments[k / 2].amount,
                    }
                } else {
                    ActionView::Emit(
                        EventView::IndividualPaymentCompleted {
                            payment_id: id,
                            from: payer,
                            destination: payments[k / 2].destination,
                            amount: payments[k / 2].amount,
                        },
                    )
                }
            } else if k == 2 * payments.len() {
                ActionView::Transfer { to: payer, amount: refund }
            } else {
                ActionView::Emit(EventView::CompletedPayment { payment_id: id })
            },
    )
}

/// Whether `call_value` covers the payments and the commission on their sum
/// at the rate `rate`.
pub open spec fn covers(payments: Seq<PaymentView>, call_value: nat, rate: nat) -> bool {
    call_value >= sum_amounts(payments) + commission_of(sum_amounts(payments), rate)
}

/// The settlement of payments out of a `call_value` that covers them: the
/// sum of the payments goes out, the commission on that sum at the rate
/// `rate` is kept, and the rest goes back to the payer.
pub open spec fn settlement_of(
    id: Seq<char>,
    payments: Seq<PaymentView>,
    payer: Seq<u8>,
    call_value: nat,
    rate: nat,
) -> SettlementView {
    let used_amount = sum_amounts(payments);
    let commission = commission_of(used_amount, rate);
    let refund = (call_value - used_amount - commission) as nat;
    SettlementView {
        actions: settlement_actions(id, payments, payer, refund),
        used_amount,
        commission,
        refund,
    }
}

/// The checks of [`complete`], in their order.
pub open spec fn complete_checks(s: ContractState, id: Seq<char>, call_value: nat) -> Result<
    (),
    ContractError,
> {
    first_failure(
        require_enabled(s),
        first_failure(
            require_exists(s, id),
            first_failure(
                require_status(s, id, Status::Pending),
                require_funded(s, id, call_value),
            ),
        ),
    )
}

/// Paying a link. After the checks the payments are summed up, the
/// commission is taken from the sum at the contract's own rate, and the rest
/// of `call_value` goes back to the payer. Where `call_value` does not cover
/// the sum and that commission there is nothing to refund from, and the call
/// fails for want of funds like the check before it.
pub open spec fn complete(
    s: ContractState,
    id: Seq<char>,
    caller: Seq<u8>,
    call_value: nat,
) -> Result<(ContractState, SettlementView), ContractError> {
    match complete_checks(s, id, call_value) {
        Err(e) => Err(e),
        Ok(_) => {
            let payments = s.links[id].payments;
            if !covers(payments, call_value, s.commission_rate) {
                Err(ContractError::InsufficientFunds)
            } else {
                Ok(
                    (
                        with_status(s, id, Status::Completed),
                        settlement_of(id, payments, caller, call_value, s.commission_rate),
                    ),
                )
            }
        },
    }
}

/// The checks of [`cancel`], in their order.
pub open spec fn cancel_checks(s: ContractState, id: Seq<char>, caller: Seq<u8>) -> Result<
    (),
    ContractError,
> {
    first_failure(
        require_enabled(s),
        first_failure(
            require_creator(s, id, caller),
            first_failure(require_exists(s, id), require_status(s, id, Status::Pending)),
        ),
    )
}

/// Withdrawing a link: after the checks the link is `Cancelled`, which is
/// reported. No funds move.
pub open spec fn cancel(s: ContractState, id: Seq<char>, caller: Seq<u8>) -> Result<
    (ContractState, EventView),
    ContractError,
> {
    match cancel_checks(s, id, caller) {
        Err(e) => Err(e),
        Ok(_) => Ok(
            (
                with_status(s, id, Status::Cancelled),
                EventView::CancelledPayment { payment_id: id },
            ),
        ),
    }
}

/// Setting the rate kept at settlement: the contract must be on, the caller
/// its owner, and the rate no more than 100.
pub open spec fn set_commission_rate(s: ContractState, rate: nat, caller: Seq<u8>) -> Result<
    ContractState,
    ContractError,
> {
    match first_failure(require_enabled(s), require_owner(s, caller)) {
        Err(e) => Err(e),
        Ok(_) => if rate > 100 {
            Err(ContractError::InvalidCommissionRate)
        } else {
            Ok(ContractState { commission_rate: rate, ..s })
        },
    }
}

/// Switching the contract off: it must be on, and the caller its owner.
pub open spec fn disable(s: ContractState, caller: Seq<u8>) -> Result<
    ContractState,
    ContractError,
> {
    match first_failure(require_enabled(s), require_owner(s, caller)) {
        Err(e) => Err(e),
        Ok(_) => Ok(ContractState { enabled: false, ..s }),
    }
}

/// Switching the contract on: it must be off, and the caller its owner.
pub open spec fn enable(s: ContractState, caller: Seq<u8>) -> Result<ContractState, ContractError> {
    if s.enabled {
        Err(ContractError::AlreadyEnabled)
    } else {
        match require_owner(s, caller) {
            Err(e) => Err(e),
            Ok(_) => Ok(ContractState { enabled: true, ..s }),
        }
    }
}

/// What the payer of the pending link under `id` has to send.
pub open spec fn required_amount(s: ContractState, id: Seq<char>) -> Result<nat, ContractError> {
    match first_failure(require_exists(s, id), require_status(s, id, Status::Pending)) {
        Err(e) => Err(e),
        Ok(_) => Ok(total_amount(s.links[id].payments)),
    }
}

/// The status of the link under `id`.
pub open spec fn payment_status(s: ContractState, id: Seq<char>) -> Result<Status, ContractError> {
    match require_exists(s, id) {
        Err(e) => Err(e),
        Ok(_) => Ok(s.links[id].status),
    }
}

/// A call that may change the state, with the caller's account and, where
/// funds come with it, their amount.
pub enum Operation {
    Initialize { caller: Seq<u8> },
    CreateLink { id: Seq<char>, payments: Seq<PaymentView>, caller: Seq<u8> },
    Complete { id: Seq<char>, caller: Seq<u8>, call_value: nat },
    Cancel { id: Seq<char>, caller: Seq<u8> },
    SetCommissionRate { rate: nat, caller: Seq<u8> },
    Disable { caller: Seq<u8> },
    Enable { caller: Seq<u8> },
}

/// The state after a call: what the operation makes of it, or the state as
/// it was where the operation fails.
pub open spec fn state_after(s: ContractState, op: Operation) -> ContractState {
    match op {
        Operation::Initialize { caller } => initialize(s, caller),
        Operation::CreateLink { id, payments, caller } => match create_link(
            s,
            id,
            payments,
            caller,
        ) {
            Ok((next, _)) => next,
            Err(_) => s,
        },
        Operation::Complete { id, caller, call_value } => match complete(
            s,
            id,
            caller,
            call_value,
        ) {
            Ok((next, _)) => next,
            Err(_) => s,
        },
        Operation::Cancel { id, caller } => match cancel(s, id, caller) {
            Ok((next, _)) => next,
            Err(_) => s,
        },
        Operation::SetCommissionRate { rate, caller } => match set_commission_rate(
            s,
            rate,
            caller,
        ) {
            Ok(next) => next,
            Err(_) => s,
        },
        Operation::Disable { caller } => match disable(s, caller) {
            Ok(next) => next,
            Err(_) => s,
        },
        Operation::Enable { caller } => match enable(s, caller) {
            Ok(next) => next,
            Err(_) => s,
        },
    }
}

} // verus!
