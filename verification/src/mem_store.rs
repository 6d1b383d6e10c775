//! The volatile in-memory implementation of the store capability.

use std::collections::HashMap;

use vstd::prelude::*;
use vstd::std_specs::iter::IteratorSpec;

use crate::account::Account;
use crate::error::{Error, ErrorKind};
use crate::store::{Store, StoreView};
use crate::transactions::{Transaction, TransactionKind};

verus! {

broadcast use vstd::std_specs::hash::group_hash_axioms;

/// An in-memory ledger store: one map of transaction records, one map of
/// account snapshots, scoped to a single run of the engine.
#[derive(Debug)]
pub struct MemStore {
    transactions: HashMap<u32, Transaction>,
    accounts: HashMap<u16, Account>,
}

impl View for MemStore {
    type V = StoreView;

    closed spec fn view(&self) -> StoreView {
        StoreView {
            txns: self.transactions@.map_values(|t: Transaction| t@),
            accounts: self.accounts@.map_values(|a: Account| a@),
        }
    }
}

impl Default for MemStore {
    /// A fresh store holding no records and no accounts.
    fn default() -> (s: Self)
        ensures
            s@ == StoreView::empty(),
    {
        let s = MemStore { transactions: HashMap::new(), accounts: HashMap::new() };
        proof {
            assert(s@.txns =~= Map::<u32, crate::transactions::TxnView>::empty());
            assert(s@.accounts =~= Map::<u16, crate::account::AccountView>::empty());
        }
        s
    }
}

impl Store for MemStore {
    fn add_transaction(&mut self, transaction: Transaction) -> (r: Result<Transaction, Error>) {
        if transaction.kind == TransactionKind::Deposit || transaction.kind
            == TransactionKind::Withdrawal {
            if self.transactions.contains_key(&transaction.id) {
                Err(Error { kind: ErrorKind::DuplicateTransaction })
            } else {
                self.transactions.insert(transaction.id, transaction.clone());
                proof {
                    assert(self@.txns =~= old(self)@.txns.insert(transaction.id, transaction@));
                    assert(self@.accounts =~= old(self)@.accounts);
                }
                Ok(transaction)
            }
        } else {
            Ok(transaction)
        }
    }

    fn get_transaction(&self, id: u32) -> (r: Result<Transaction, Error>) {
        match self.transactions.get(&id) {
            Some(t) => Ok(t.clone()),
            None => Err(Error { kind: ErrorKind::NotFound }),
        }
    }

    fn delete_transaction(&mut self, id: u32) -> (r: Result<(), Error>) {
        self.transactions.remove(&id);
        proof {
            assert(self@.txns =~= old(self)@.txns.remove(id));
            assert(self@.accounts =~= old(self)@.accounts);
        }
        Ok(())
    }

    fn set_transaction_under_dispute(&mut self, id: u32, under_dispute: bool) -> (r: Result<
        (),
        Error,
    >) {
        let current: Option<Transaction> = match self.transactions.get(&id) {
            Some(t) => Some(t.clone()),
            None => None,
        };
        match current {
            Some(mut t) => {
                t.set_under_dispute(under_dispute);
                self.transactions.insert(id, t);
                proof {
                    assert(self@.txns =~= old(self)@.txns.insert(
                        id,
                        crate::transactions::TxnView { under_dispute, ..old(self)@.txns[id] },
                    ));
                    assert(self@.accounts =~= old(self)@.accounts);
                }
            },
            None => {},
        }
        Ok(())
    }

    fn get_account(&self, id: u16) -> (r: Result<Account, Error>) {
        match self.accounts.get(&id) {
            Some(a) => Ok(*a),
            None => Ok(Account::new(id)),
        }
    }

    fn update_account(&mut self, account: &Account) -> (r: Result<(), Error>) {
        self.accounts.insert(account.client, *account);
        proof {
            assert(self@.accounts =~= old(self)@.accounts.insert(account.client, account@));
            assert(self@.txns =~= old(self)@.txns);
        }
        Ok(())
    }

    fn get_all_accounts(&self) -> (r: Result<Vec<Account>, Error>) {
        let mut out: Vec<Account> = Vec::new();
        let mut it = vstd::std_specs::iter::VerusForLoopWrapper::new(
            self.accounts.iter(),
            Ghost(None),
        );
        loop
            invariant
                it.wf(),
                it.seq() == vstd::std_specs::hash::spec_hash_map_iter(&self.accounts).remaining(),
                it.index() == out@.len(),
                forall|i: int| 0 <= i < out@.len() ==> out@[i] == *it.seq()[i].1,
                it.iter.decrease() is Some,
            ensures
                out@.len() == it.seq().len(),
                it.seq() == vstd::std_specs::hash::spec_hash_map_iter(&self.accounts).remaining(),
                forall|i: int| 0 <= i < out@.len() ==> out@[i] == *it.seq()[i].1,
            decreases it.iter.decrease()->0,
        {
            match it.next() {
                Some(pair) => {
                    out.push(*pair.1);
                },
                None => {
                    break ;
                },
            }
        }
        proof {
            let all = it.seq();
            assert(self@.accounts.dom() =~= self.accounts@.dom());
            assert(forall|i: int|
                0 <= i < all.len() ==> self.accounts@.contains_key(*all[i].0)
                    && self.accounts@[*all[i].0] == *all[i].1);
            assert forall|i: int| #![trigger out@[i]] 0 <= i < out@.len() implies
                crate::store::contains_snapshot(self@, out@[i]) by {
                let c = *all[i].0;
                assert(self@.accounts.contains_key(c) && self@.accounts[c] == out@[i]@);
            }
            assert forall|c: u16|
                #![trigger self@.accounts.contains_key(c)]
                self@.accounts.contains_key(c) implies exists|i: int|
                0 <= i < out@.len() && (#[trigger] out@[i])@ == self@.accounts[c] by {
                assert(all.contains((&c, &self.accounts@[c])));
                let i = choose|i: int|
                    0 <= i < all.len() && all[i] == (&c, &self.accounts@[c]);
                assert(out@[i]@ == self@.accounts[c]);
            }
            assert(crate::store::report_of(self@, out@));
        }
        Ok(out)
    }
}

} // verus!
