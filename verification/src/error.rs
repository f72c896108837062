//! Errors a state transition can report. Every failure aborts the whole
//! operation: the caller sees the error and the ledger is left untouched.

use vstd::prelude::*;

verus! {

/// The kind of a failure.
#[derive(Debug, Clone, Copy, PartialEq, Eq, Structural)]
pub enum ErrorKind {
    /// The caller is not the configured admin.
    Authorization,
    /// A feature flag is not enabled, or funds are still locked.
    Precondition,
    /// The attached payment is malformed or unsupported.
    Validation,
}

/// A failed state transition: its kind and a human-readable message.
#[derive(Debug, Clone, PartialEq, Eq)]
pub struct ContractError {
    pub kind: ErrorKind,
    pub message: String,
}

impl ContractError {
    /// The caller of an admin-gated operation is not the admin.
    pub fn unauthorized() -> (e: ContractError)
        ensures
            e.kind == ErrorKind::Authorization,
            e.message@ == "Unauthorized"@,
    {
        ContractError { kind: ErrorKind::Authorization, message: String::from_str("Unauthorized") }
    }

    /// Deposits are not enabled.
    pub fn deposit_disabled() -> (e: ContractError)
        ensures
            e.kind == ErrorKind::Precondition,
            e.message@ == "User is not able to deposit"@,
    {
        ContractError {
            kind: ErrorKind::Precondition,
            message: String::from_str("User is not able to deposit"),
        }
    }

    /// More than one asset was attached to a deposit.
    pub fn multiple_coins() -> (e: ContractError)
        ensures
            e.kind == ErrorKind::Validation,
            e.message@ == "More than one coin is sent; only one asset is supported"@,
    {
        ContractError {
            kind: ErrorKind::Validation,
            message: String::from_str("More than one coin is sent; only one asset is supported"),
        }
    }

    /// No attached asset matches the accepted denomination with a positive
    /// amount.
    pub fn no_assets(denom: &String) -> (e: ContractError)
        ensures
            e.kind == ErrorKind::Validation,
            e.message@ == "No "@ + denom@ + " assets are provided to deposit"@,
    {
        let mut message = String::from_str("No ");
        message.append(denom.as_str());
        message.append(" assets are provided to deposit");
        ContractError { kind: ErrorKind::Validation, message }
    }

    /// Withdrawals are not enabled.
    pub fn claim_disabled() -> (e: ContractError)
        ensures
            e.kind == ErrorKind::Precondition,
            e.message@ == "do not allow to claim"@,
    {
        ContractError {
            kind: ErrorKind::Precondition,
            message: String::from_str("do not allow to claim"),
        }
    }

    /// Vesting has not started and no refund is pending.
    pub fn locked() -> (e: ContractError)
        ensures
            e.kind == ErrorKind::Precondition,
            e.message@ == "locking funds"@,
    {
        ContractError { kind: ErrorKind::Precondition, message: String::from_str("locking funds") }
    }
}

} // verus!
