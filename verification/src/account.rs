//! Per-client account snapshots.

use vstd::prelude::*;

use crate::transactions::UNITS_PER_DISPLAY_STEP;

verus! {

/// The balance state of one client. The engine maintains
/// `total == available + held` with both parts non-negative
/// (see [`AccountView::wf`]); once `locked` is set by a chargeback the
/// engine refuses every further event for the client.
#[derive(Debug, Clone, Copy, PartialEq)]
pub struct Account {
    pub client: u16,
    /// Funds usable for withdrawal, in fixed-point units.
    pub available: i64,
    /// Funds frozen pending dispute resolution, in fixed-point units.
    pub held: i64,
    /// Always `available + held` while well-formed.
    pub total: i64,
    pub locked: bool,
}

/// Mathematical model of an account: balances as unbounded integers.
pub struct AccountView {
    pub client: u16,
    pub available: int,
    pub held: int,
    pub total: int,
    pub locked: bool,
}

impl View for Account {
    type V = AccountView;

    open spec fn view(&self) -> AccountView {
        AccountView {
            client: self.client,
            available: self.available as int,
            held: self.held as int,
            total: self.total as int,
            locked: self.locked,
        }
    }
}

impl AccountView {
    /// The account invariant: the total is exactly the available part plus
    /// the held part, and neither part is negative.
    pub open spec fn wf(self) -> bool {
        &&& self.total == self.available + self.held
        &&& self.available >= 0
        &&& self.held >= 0
    }

    /// A freshly created account: all balances zero, not locked.
    pub open spec fn zeroed(client: u16) -> AccountView {
        AccountView { client, available: 0, held: 0, total: 0, locked: false }
    }
}

/// `x` truncated toward zero to a whole number of display steps
/// (for non-negative `x`).
pub open spec fn truncated(x: int) -> int {
    x - x % (UNITS_PER_DISPLAY_STEP as int)
}

/// `x` with any fraction of a display step cut off.
fn truncate(x: i64) -> (r: i64)
    requires
        x >= 0,
    ensures
        r == truncated(x as int),
{
    (x / UNITS_PER_DISPLAY_STEP) * UNITS_PER_DISPLAY_STEP
}

impl Account {
    pub fn new(client: u16) -> (a: Account)
        ensures
            a@ == AccountView::zeroed(client),
    {
        Account { client, available: 0, held: 0, total: 0, locked: false }
    }

    /// Rebuild a snapshot from its parts; the total is derived so that the
    /// account invariant holds by construction.
    pub fn load(client: u16, available: i64, held: i64, locked: bool) -> (a: Account)
        requires
            i64::MIN <= available + held <= i64::MAX,
        ensures
            a@ == (AccountView {
                client,
                available: available as int,
                held: held as int,
                total: available + held,
                locked,
            }),
    {
        Account { client, available, held, total: available + held, locked }
    }

    /// Cut each balance down to the display precision. A pure formatting
    /// step applied just before a snapshot is emitted; the parts are
    /// truncated independently.
    pub fn to_max_display_precision(&mut self)
        requires
            old(self)@.available >= 0,
            old(self)@.held >= 0,
            old(self)@.total >= 0,
        ensures
            final(self)@ == (AccountView {
                available: truncated(old(self)@.available),
                held: truncated(old(self)@.held),
                total: truncated(old(self)@.total),
                ..old(self)@
            }),
    {
        self.available = truncate(self.available);
        self.held = truncate(self.held);
        self.total = truncate(self.total);
    }
}

} // verus!
