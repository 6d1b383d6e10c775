//! The store capability: a key/value ledger of transaction records and
//! account snapshots, and its mathematical model.

use vstd::prelude::*;

use crate::account::{Account, AccountView};
use crate::error::Error;
use crate::transactions::{Transaction, TxnView};

verus! {

/// Mathematical model of a ledger store: the two maps it holds.
#[verifier::ext_equal]
pub struct StoreView {
    /// transaction id -> stored transaction record
    pub txns: Map<u32, TxnView>,
    /// client id -> account snapshot
    pub accounts: Map<u16, AccountView>,
}

/// A stored record is a Deposit or Withdrawal under its own id, carrying a
/// non-negative amount.
pub open spec fn wf_record(id: u32, t: TxnView) -> bool {
    &&& t.id == id
    &&& t.creates_record()
    &&& t.amount matches Some(a) && a >= 0
}

impl StoreView {
    pub open spec fn empty() -> StoreView {
        StoreView { txns: Map::empty(), accounts: Map::empty() }
    }

    /// The snapshot the store hands out for `client`: the stored one, or a
    /// freshly zeroed one on first reference.
    pub open spec fn account_of(self, client: u16) -> AccountView {
        if self.accounts.contains_key(client) {
            self.accounts[client]
        } else {
            AccountView::zeroed(client)
        }
    }

    /// Well-formedness the engine maintains: every record is a valid stored
    /// copy of a Deposit/Withdrawal, and every account sits under its own
    /// client id with `total == available + held` and non-negative parts.
    pub open spec fn wf(self) -> bool {
        &&& forall|id: u32| #[trigger] self.txns.contains_key(id) ==> wf_record(id, self.txns[id])
        &&& forall|c: u16| #[trigger] self.accounts.contains_key(c)
            ==> self.accounts[c].client == c && self.accounts[c].wf()
    }
}

/// Some client's stored snapshot is `a`.
pub open spec fn contains_snapshot(s: StoreView, a: Account) -> bool {
    exists|c: u16| (#[trigger] s.accounts.contains_key(c)) && s.accounts[c] == a@
}

/// `v` is a drain of the accounts of `s`: every entry of `v` is a stored
/// snapshot, every stored snapshot occurs in `v`, and the lengths match.
/// The order is unspecified; consumers must not rely on it.
pub open spec fn report_of(s: StoreView, v: Seq<Account>) -> bool {
    &&& v.len() == s.accounts.dom().len()
    &&& forall|i: int|
        #![trigger v[i]]
        0 <= i < v.len() ==> contains_snapshot(s, v[i])
    &&& forall|c: u16|
        #![trigger s.accounts.contains_key(c)]
        s.accounts.contains_key(c) ==> exists|i: int|
            0 <= i < v.len() && (#[trigger] v[i])@ == s.accounts[c]
}

/// The store contract: atomic single-key operations on the two maps,
/// specified against the [`StoreView`] model. The in-memory store
/// implements it; a persistent store could be substituted without touching
/// the engine.
pub trait Store: View<V = StoreView> + Sized {
    /// Persist a Deposit/Withdrawal record; duplicate ids are refused, other
    /// event kinds pass through without touching the store.
    fn add_transaction(&mut self, transaction: Transaction) -> (r: Result<Transaction, Error>)
        ensures
            transaction@.creates_record() && old(self)@.txns.contains_key(transaction.id) ==> {
                &&& final(self)@ == old(self)@
                &&& r matches Err(e) && e.kind == crate::error::ErrorKind::DuplicateTransaction
            },
            transaction@.creates_record() && !old(self)@.txns.contains_key(transaction.id) ==> {
                &&& final(self)@ == (StoreView {
                    txns: old(self)@.txns.insert(transaction.id, transaction@),
                    ..old(self)@
                })
                &&& r == Ok::<Transaction, Error>(transaction)
            },
            !transaction@.creates_record() ==> {
                &&& final(self)@ == old(self)@
                &&& r == Ok::<Transaction, Error>(transaction)
            },
    ;

    fn get_transaction(&self, id: u32) -> (r: Result<Transaction, Error>)
        ensures
            self@.txns.contains_key(id) ==> (r matches Ok(t) && t@ == self@.txns[id]),
            !self@.txns.contains_key(id) ==> (r matches Err(e)
                && e.kind == crate::error::ErrorKind::NotFound),
    ;

    /// Idempotent removal: deleting an absent id is not an error.
    fn delete_transaction(&mut self, id: u32) -> (r: Result<(), Error>)
        ensures
            r is Ok,
            final(self)@ == (StoreView { txns: old(self)@.txns.remove(id), ..old(self)@ }),
    ;

    /// Flip the dispute flag of a stored record; a no-op if the id is absent.
    fn set_transaction_under_dispute(&mut self, id: u32, under_dispute: bool) -> (r: Result<
        (),
        Error,
    >)
        ensures
            r is Ok,
            old(self)@.txns.contains_key(id) ==> final(self)@ == (StoreView {
                txns: old(self)@.txns.insert(
                    id,
                    TxnView { under_dispute, ..old(self)@.txns[id] },
                ),
                ..old(self)@
            }),
            !old(self)@.txns.contains_key(id) ==> final(self)@ == old(self)@,
    ;

    /// Never fails: hands out the stored snapshot or a freshly zeroed one.
    fn get_account(&self, id: u16) -> (r: Result<Account, Error>)
        ensures
            r matches Ok(a) && a@ == self@.account_of(id),
    ;

    /// Unconditional upsert keyed by the snapshot's client id.
    fn update_account(&mut self, account: &Account) -> (r: Result<(), Error>)
        ensures
            r is Ok,
            final(self)@ == (StoreView {
                accounts: old(self)@.accounts.insert(account.client, account@),
                ..old(self)@
            }),
    ;

    /// A snapshot copy of every stored account, in unspecified order.
    fn get_all_accounts(&self) -> (r: Result<Vec<Account>, Error>)
        ensures
            r matches Ok(v) && report_of(self@, v@),
    ;
}

} // verus!
