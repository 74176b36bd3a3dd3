//! The ways in which an operation is refused.

use vstd::prelude::*;

verus! {

/// Why an operation was refused. A refused operation changes nothing and
/// moves no funds.
#[derive(Clone, Copy, Debug, PartialEq, Eq, Structural)]
pub enum ContractError {
    /// The contract is switched off.
    ContractDisabled,
    /// No payment link is stored under the id.
    LinkNotFound,
    /// The payment link is not in the status that the operation needs.
    InvalidStatus,
    /// Less was sent than the link needs.
    InsufficientFunds,
    /// The caller is not the account that may do this.
    Unauthorized,
    /// A commission rate above 100 percent.
    InvalidCommissionRate,
    /// The contract is switched on already.
    AlreadyEnabled,
}

impl ContractError {
    /// The message that goes with the error.
    pub open spec fn message_spec(self) -> Seq<char> {
        match self {
            ContractError::ContractDisabled => "Contract is disabled"@,
            ContractError::LinkNotFound => "Payment link does not exist"@,
            ContractError::InvalidStatus => "Payment link does not have the required status"@,
            ContractError::InsufficientFunds =>
                "Not enough EGLD sent to complete payment (check required/minimum amount)"@,
            ContractError::Unauthorized => "Caller is not allowed to call this function"@,
            ContractError::InvalidCommissionRate => "Commission rate cannot be greater than 100%"@,
            ContractError::AlreadyEnabled => "Contract is already enabled"@,
        }
    }

    /// The message that goes with the error.
    pub fn message(&self) -> (r: &'static str)
        ensures
            r@ == self.message_spec(),
    {
        match self {
            ContractError::ContractDisabled => "Contract is disabled",
            ContractError::LinkNotFound => "Payment link does not exist",
            ContractError::InvalidStatus => "Payment link does not have the required status",
            ContractError::InsufficientFunds =>
                "Not enough EGLD sent to complete payment (check required/minimum amount)",
            ContractError::Unauthorized => "Caller is not allowed to call this function",
            ContractError::InvalidCommissionRate => "Commission rate cannot be greater than 100%",
            ContractError::AlreadyEnabled => "Contract is already enabled",
        }
    }
}

} // verus!
