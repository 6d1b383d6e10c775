//! Ledger events and stored transaction records.
//!
//! Monetary amounts are fixed-point integers: `UNITS_PER_WHOLE` units make
//! one whole currency unit, so one unit is one millionth. Reports are
//! truncated to four fractional digits, i.e. to multiples of
//! `UNITS_PER_DISPLAY_STEP`.

use vstd::prelude::*;

verus! {

/// Number of fixed-point units in one whole currency unit.
pub const UNITS_PER_WHOLE: i64 = 1000000;

/// Number of fixed-point units in one display step (four fractional digits).
pub const UNITS_PER_DISPLAY_STEP: i64 = 100;

/// The kind of a ledger event (and of a stored transaction record).
#[derive(Debug, Clone, Copy, PartialEq, Eq, Structural)]
pub enum TransactionKind {
    Deposit,
    Withdrawal,
    Dispute,
    Resolve,
    ChargeBack,
}

/// A ledger event as fed to the engine, and also the stored record of an
/// accepted Deposit/Withdrawal (then carrying the `under_dispute` flag).
#[derive(Debug, Clone, Copy, PartialEq)]
pub struct Transaction {
    pub kind: TransactionKind,
    pub client_id: u16,
    pub id: u32,
    /// Fixed-point amount; present for Deposit/Withdrawal events.
    pub amount: Option<i64>,
    pub under_dispute: bool,
}

/// Mathematical model of a transaction: the amount as an unbounded integer.
pub struct TxnView {
    pub kind: TransactionKind,
    pub client_id: u16,
    pub id: u32,
    pub amount: Option<int>,
    pub under_dispute: bool,
}

impl View for Transaction {
    type V = TxnView;

    open spec fn view(&self) -> TxnView {
        TxnView {
            kind: self.kind,
            client_id: self.client_id,
            id: self.id,
            amount: match self.amount {
                Some(a) => Some(a as int),
                None => None,
            },
            under_dispute: self.under_dispute,
        }
    }
}

impl TxnView {
    /// An amount, when present, must be non-negative to be accepted.
    pub open spec fn valid_amount(self) -> bool {
        match self.amount {
            Some(a) => a >= 0,
            None => true,
        }
    }

    /// Deposit and Withdrawal events create stored records.
    pub open spec fn creates_record(self) -> bool {
        self.kind is Deposit || self.kind is Withdrawal
    }

    /// Shape of an event as the decoder hands it over: Deposit/Withdrawal
    /// carry an amount, and the dispute flag of an incoming event is clear.
    pub open spec fn wf_event(self) -> bool {
        &&& self.creates_record() ==> self.amount is Some
        &&& !self.under_dispute
    }
}

impl Transaction {
    pub fn new(kind: TransactionKind, client_id: u16, id: u32, amount: Option<i64>) -> (t: Transaction)
        ensures
            t@ == (TxnView {
                kind,
                client_id,
                id,
                amount: match amount {
                    Some(a) => Some(a as int),
                    None => None::<int>,
                },
                under_dispute: false,
            }),
    {
        Transaction { kind, client_id, id, amount, under_dispute: false }
    }

    /// True unless the event carries a negative amount.
    pub fn is_valid_amount(&self) -> (r: bool)
        ensures
            r == self@.valid_amount(),
    {
        match self.amount {
            Some(a) => {
                if a < 0 {
                    false
                } else {
                    true
                }
            },
            None => true,
        }
    }

    pub fn set_under_dispute(&mut self, under_dispute: bool)
        ensures
            final(self)@ == (TxnView { under_dispute, ..old(self)@ }),
    {
        self.under_dispute = under_dispute;
    }
}

} // verus!
