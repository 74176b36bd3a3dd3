//! What an operation asks the outside world to do: transfers of funds and
//! events for the log, in the order in which they are due.

use crate::address::Address;
use crate::amount::Amount;
use vstd::prelude::*;

verus! {

/// An entry for the log.
#[derive(Debug, PartialEq)]
pub enum Event {
    /// A payment link was stored.
    CreatedPaymentLink { payment_id: String, creator: Address },
    /// A payment link was paid in full.
    CompletedPayment { payment_id: String },
    /// A payment link was withdrawn by its creator.
    CancelledPayment { payment_id: String },
    /// One payout of a link went to its destination.
    IndividualPaymentCompleted {
        payment_id: String,
        from: Address,
        destination: Address,
        amount: Amount,
    },
}

/// What an [`Event`] stands for.
#[verifier::ext_equal]
pub enum EventView {
    CreatedPaymentLink { payment_id: Seq<char>, creator: Seq<u8> },
    CompletedPayment { payment_id: Seq<char> },
    CancelledPayment { payment_id: Seq<char> },
    IndividualPaymentCompleted {
        payment_id: Seq<char>,
        from: Seq<u8>,
        destination: Seq<u8>,
        amount: nat,
    },
}

impl View for Event {
    type V = EventView;

    open spec fn view(&self) -> EventView {
        match self {
            Event::CreatedPaymentLink { payment_id, creator } => EventView::CreatedPaymentLink {
                payment_id: payment_id@,
                creator: creator@,
            },
            Event::CompletedPayment { payment_id } => EventView::CompletedPayment {
                payment_id: payment_id@,
            },
            Event::CancelledPayment { payment_id } => EventView::CancelledPayment {
                payment_id: payment_id@,
            },
            Event::IndividualPaymentCompleted { payment_id, from, destination, amount } =>
                EventView::IndividualPaymentCompleted {
                    payment_id: payment_id@,
                    from: from@,
                    destination: destination@,
                    amount: amount@,
                },
        }
    }
}

/// One step of a settlement, for the caller to carry out.
#[derive(Debug, PartialEq)]
pub enum Action {
    /// Send `amount` to the account `to`.
    Transfer { to: Address, amount: Amount },
    /// Write the event to the log.
    Emit(Event),
}

/// What an [`Action`] stands for.
#[verifier::ext_equal]
pub enum ActionView {
    Transfer { to: Seq<u8>, amount: nat },
    Emit(EventView),
}

impl View for Action {
    type V = ActionView;

    open spec fn view(&self) -> ActionView {
        match self {
            Action::Transfer { to, amount } => ActionView::Transfer { to: to@, amount: amount@ },
            Action::Emit(event) => ActionView::Emit(event@),
        }
    }
}

impl DeepView for Action {
    type V = ActionView;

    open spec fn deep_view(&self) -> ActionView {
        self@
    }
}

/// The outcome of paying a link: what to do, in order, and how the money
/// that came in is split.
#[derive(Debug, PartialEq)]
pub struct Settlement {
    /// The transfers and events that are due, first to last.
    pub actions: Vec<Action>,
    /// The sum that goes to the destinations.
    pub used_amount: Amount,
    /// What the contract keeps.
    pub commission: Amount,
    /// What goes back to the payer.
    pub refund: Amount,
}

/// What a [`Settlement`] stands for.
#[verifier::ext_equal]
pub struct SettlementView {
    pub actions: Seq<ActionView>,
    pub used_amount: nat,
    pub commission: nat,
    pub refund: nat,
}

impl View for Settlement {
    type V = SettlementView;

    open spec fn view(&self) -> SettlementView {
        SettlementView {
            actions: self.actions.deep_view(),
            used_amount: self.used_amount@,
            commission: self.commission@,
            refund: self.refund@,
        }
    }
}

} // verus!
