//! Split-payment escrow: payment links, their settlement arithmetic and the
//! rules that guard every operation, with each rule stated as a contract.
//!
//! A creator stores a named link that lists who is to be paid how much. A
//! payer pays the link in one call: every destination gets its amount, the
//! contract keeps a commission, and what is left of the value goes back to
//! the payer. [`model`] says in mathematics what each operation does,
//! [`contract`] gives the operations their contracts over it, [`ledger`]
//! keeps the contract in memory, and [`laws`] proves what holds of every
//! state and call.
//!
//! The library moves no funds and writes no log: an operation hands back the
//! transfers and events that are due, for its caller to carry out.

pub mod address;
pub mod amount;
pub mod calc;
pub mod contract;
pub mod effect;
pub mod error;
pub mod laws;
pub mod ledger;
pub mod link;
pub mod model;
pub mod settlement;

pub use crate::address::Address;
pub use crate::amount::Amount;
pub use crate::calc::COMMISSION_RATE_PERCENT;
pub use crate::contract::SplitPaymentsContract;
pub use crate::effect::{Action, Event, Settlement};
pub use crate::error::ContractError;
pub use crate::ledger::Ledger;
pub use crate::link::{IndividualPayment, PaymentLink, Payments, Status};
