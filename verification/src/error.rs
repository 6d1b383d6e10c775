//! The closed error taxonomy of the engine and store.

use vstd::prelude::*;

verus! {

/// Every failure the engine or the store can signal. `JoinFailure` and
/// `IOFailure` belong to the adapters around the library (a lane processor
/// that terminated abnormally; a boundary read/write error); the library
/// itself never produces them.
#[derive(Debug, Clone, PartialEq)]
pub enum ErrorKind {
    /// A Deposit/Withdrawal carries a transaction id that is already stored.
    DuplicateTransaction,
    /// The store holds no transaction under the requested id.
    NotFound,
    /// The account was locked by an earlier chargeback.
    AccountLocked,
    /// Available (or held) funds do not cover the amount.
    InsufficientFunds,
    /// The referenced transaction belongs to another client:
    /// transaction id, expected client, offered client.
    WrongClient(u32, u16, u16),
    /// The referenced transaction is already under dispute.
    DoubleDispute(u32),
    /// The referenced transaction is not a Deposit.
    WrongReference(u32),
    /// A lane processor terminated abnormally.
    JoinFailure,
    /// A boundary-adapter read or write failed.
    IOFailure,
}

#[derive(Debug, Clone, PartialEq)]
pub struct Error {
    pub kind: ErrorKind,
}

impl ErrorKind {
    pub open spec fn spec_message(self) -> &'static str {
        match self {
            ErrorKind::DuplicateTransaction => "Store error Transaction with transaction id exists.",
            ErrorKind::NotFound => "Store error Transaction with transaction Id does not exist.",
            ErrorKind::AccountLocked => "Engine error Account locked",
            ErrorKind::InsufficientFunds => "Insufficient available funds",
            ErrorKind::WrongClient(_, _, _) => "Wrong client_id in transaction",
            ErrorKind::DoubleDispute(_) => "Double dispute for tx",
            ErrorKind::WrongReference(_) => "Wrong reference for transaction",
            ErrorKind::JoinFailure => "Failed to join an engine worker",
            ErrorKind::IOFailure => "IO failure",
        }
    }

    /// A human-readable description of the failure.
    pub fn message(&self) -> (r: &'static str)
        ensures
            r == self.spec_message(),
    {
        match self {
            ErrorKind::DuplicateTransaction => "Store error Transaction with transaction id exists.",
            ErrorKind::NotFound => "Store error Transaction with transaction Id does not exist.",
            ErrorKind::AccountLocked => "Engine error Account locked",
            ErrorKind::InsufficientFunds => "Insufficient available funds",
            ErrorKind::WrongClient(_, _, _) => "Wrong client_id in transaction",
            ErrorKind::DoubleDispute(_) => "Double dispute for tx",
            ErrorKind::WrongReference(_) => "Wrong reference for transaction",
            ErrorKind::JoinFailure => "Failed to join an engine worker",
            ErrorKind::IOFailure => "IO failure",
        }
    }
}

impl Error {
    pub fn new(kind: ErrorKind) -> (e: Error)
        ensures
            e.kind == kind,
    {
        Error { kind }
    }

    /// A human-readable description of the failure.
    pub fn message(&self) -> (r: &'static str)
        ensures
            r == self.kind.spec_message(),
    {
        self.kind.message()
    }
}

} // verus!
