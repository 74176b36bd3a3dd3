//! The operations of the split-payment contract, each with its contract over
//! the state in [`crate::model`].
//!
//! The caller's account and the value that came with a call are parameters.
//! Transfers and events come back as values, for the caller to carry out.

use crate::address::Address;
use crate::amount::Amount;
use crate::calc::total_amount;
use crate::effect::{Event, Settlement};
use crate::error::ContractError;
use crate::link::{Payments, Status};
use crate::model::{
    cancel, complete, create_link, disable, enable, initialize, payment_status, require_creator,
    require_enabled, require_exists, require_funded, require_owner, require_status,
    required_amount, set_commission_rate, valid_state, ContractState,
};
use vstd::prelude::*;

verus! {

/// A split-payment contract: settings and payment links, and the operations
/// on them. An operation that fails leaves the state as it was, and every
/// operation leaves a valid state.
pub trait SplitPaymentsContract: Sized {
    /// What the contract holds.
    spec fn state(&self) -> ContractState;

    /// Whether the contract is switched on.
    fn enabled(&self) -> (r: bool)
        ensures
            r == self.state().enabled,
    ;

    /// The account that may change the settings.
    fn owner(&self) -> (r: Address)
        ensures
            r@ == self.state().owner,
    ;

    /// The percentage that is kept at settlement.
    fn commission_rate(&self) -> (r: Amount)
        ensures
            r@ == self.state().commission_rate,
            r@ <= 100,
    ;

    /// Fails with `LinkNotFound` unless a link is stored under the id.
    fn guard_payment_link_exists(&self, payment_id: String) -> (r: Result<(), ContractError>)
        ensures
            r == require_exists(self.state(), payment_id@),
    ;

    /// Fails with `InvalidStatus` unless the link has the status; with
    /// `LinkNotFound` if there is no link.
    fn guard_payment_has_status(&self, payment_id: String, status: Status) -> (r: Result<
        (),
        ContractError,
    >)
        ensures
            r == require_status(self.state(), payment_id@, status),
    ;

    /// Fails with `InsufficientFunds` unless `call_value` covers what the
    /// link asks of its payer; with `LinkNotFound` if there is no link.
    fn guard_sent_enough_egld(&self, payment_id: String, call_value: &Amount) -> (r: Result<
        (),
        ContractError,
    >)
        ensures
            r == require_funded(self.state(), payment_id@, call_value@),
    ;

    /// Fails with `Unauthorized` unless the caller is the owner.
    fn guard_only_owner(&self, caller: &Address) -> (r: Result<(), ContractError>)
        ensures
            r == require_owner(self.state(), caller@),
    ;

    /// Fails with `Unauthorized` unless the caller made the link; with
    /// `LinkNotFound` if there is no link.
    fn guard_only_payment_creator(&self, payment_id: String, caller: &Address) -> (r: Result<
        (),
        ContractError,
    >)
        ensures
            r == require_creator(self.state(), payment_id@, caller@),
    ;

    /// Fails with `ContractDisabled` unless the contract is switched on.
    fn guard_if_enabled(&self) -> (r: Result<(), ContractError>)
        ensures
            r == require_enabled(self.state()),
    ;

    /// Sets the contract up: the caller owns it, it is switched on, and it
    /// keeps the quoted rate.
    fn init(&mut self, caller: Address)
        ensures
            valid_state(final(self).state()),
            final(self).state() == initialize(old(self).state(), caller@),
    ;

    /// Stores a pending link under the id, in place of any link that was
    /// there, and hands back the event to log.
    fn create_payment_link(
        &mut self,
        payment_id: String,
        payments: &Payments,
        caller: Address,
    ) -> (r: Result<Event, ContractError>)
        ensures
            valid_state(final(self).state()),
            create_link(old(self).state(), payment_id@, payments@, caller@) == (match r {
                Ok(event) => Ok((final(self).state(), event@)),
                Err(e) => Err(e),
            }),
            r is Err ==> final(self).state() == old(self).state(),
    ;

    /// Pays the link with `call_value`: marks it `Completed` and hands back
    /// the transfers and events that are due, with the split of the money.
    fn complete_payment(&mut self, payment_id: String, caller: Address, call_value: Amount) -> (r:
        Result<Settlement, ContractError>)
        ensures
            valid_state(final(self).state()),
            complete(old(self).state(), payment_id@, caller@, call_value@) == (match r {
                Ok(settlement) => Ok((final(self).state(), settlement@)),
                Err(e) => Err(e),
            }),
            r is Err ==> final(self).state() == old(self).state(),
    ;

    /// Withdraws a pending link for its creator: marks it `Cancelled` and
    /// hands back the event to log.
    fn cancel_payment(&mut self, payment_id: String, caller: Address) -> (r: Result<
        Event,
        ContractError,
    >)
        ensures
            valid_state(final(self).state()),
            cancel(old(self).state(), payment_id@, caller@) == (match r {
                Ok(event) => Ok((final(self).state(), event@)),
                Err(e) => Err(e),
            }),
            r is Err ==> final(self).state() == old(self).state(),
    ;

    /// Sets the percentage that is kept at settlement, for the owner.
    fn set_commission_rate(&mut self, commission_rate: Amount, caller: Address) -> (r: Result<
        (),
        ContractError,
    >)
        ensures
            valid_state(final(self).state()),
            set_commission_rate(old(self).state(), commission_rate@, caller@) == (match r {
                Ok(_) => Ok(final(self).state()),
                Err(e) => Err(e),
            }),
            r is Err ==> final(self).state() == old(self).state(),
    ;

    /// Switches the contract off, for the owner.
    fn disable_contract(&mut self, caller: Address) -> (r: Result<(), ContractError>)
        ensures
            valid_state(final(self).state()),
            disable(old(self).state(), caller@) == (match r {
                Ok(_) => Ok(final(self).state()),
                Err(e) => Err(e),
            }),
            r is Err ==> final(self).state() == old(self).state(),
    ;

    /// Switches the contract on again, for the owner.
    fn enable_contract(&mut self, caller: Address) -> (r: Result<(), ContractError>)
        ensures
            valid_state(final(self).state()),
            enable(old(self).state(), caller@) == (match r {
                Ok(_) => Ok(final(self).state()),
                Err(e) => Err(e),
            }),
            r is Err ==> final(self).state() == old(self).state(),
    ;

    /// What the payer of a pending link has to send.
    fn get_required_amount(&self, payment_id: String) -> (r: Result<Amount, ContractError>)
        ensures
            required_amount(self.state(), payment_id@) == (match r {
                Ok(amount) => Ok(amount@),
                Err(e) => Err(e),
            }),
    ;

    /// The status of a link.
    fn get_payment_status(&self, payment_id: String) -> (r: Result<Status, ContractError>)
        ensures
            r == payment_status(self.state(), payment_id@),
    ;

    /// What a payer has to send for the payments: their sum and one percent
    /// of it, rounded down.
    fn _compute_total_amount(&self, payments: &Payments) -> (total: Amount)
        ensures
            total@ == total_amount(payments@),
    ;
}

} // verus!
