//! The account engine: the transaction state machine.
//!
//! The exact behaviour of one event is the spec-level transition [`step`]:
//! validate the amount, persist Deposit/Withdrawal records, refuse events on
//! locked accounts, apply the kind-specific balance transition, and on any
//! failure perform the compensating rollback. The executable engine is
//! proved to follow `step` event by event.

use vstd::prelude::*;

use crate::account::{Account, AccountView};
use crate::error::{Error, ErrorKind};
use crate::store::{Store, StoreView};
use crate::transactions::{Transaction, TransactionKind, TxnView};

verus! {

/// The record map with the dispute flag of `id` set to `f` (a no-op when
/// `id` is absent).
pub open spec fn set_flag(txns: Map<u32, TxnView>, id: u32, f: bool) -> Map<u32, TxnView> {
    if txns.contains_key(id) {
        txns.insert(id, TxnView { under_dispute: f, ..txns[id] })
    } else {
        txns
    }
}

/// Net effect of the compensating rollback for a failed event: the
/// just-inserted Deposit/Withdrawal record is removed again, while for the
/// dispute lifecycle kinds the referenced record's flag is defensively reset
/// (to clear for Dispute, to set for Resolve/ChargeBack) whether or not the
/// failed event had touched it.
pub open spec fn rollback_state(s: StoreView, e: TxnView) -> StoreView {
    match e.kind {
        TransactionKind::Deposit | TransactionKind::Withdrawal => s,
        TransactionKind::Dispute => StoreView { txns: set_flag(s.txns, e.id, false), ..s },
        TransactionKind::Resolve | TransactionKind::ChargeBack => StoreView {
            txns: set_flag(s.txns, e.id, true),
            ..s
        },
    }
}

/// The kind-specific transition applied to an in-memory copy `a` of the
/// account, against store state `s` (which already holds the record of a
/// Deposit/Withdrawal event). Returns the store after any dispute-flag
/// update, the new account copy, and the outcome; it does not persist the
/// account and performs no rollback — [`step`] adds both.
pub open spec fn apply_step(s: StoreView, a: AccountView, e: TxnView) -> (
    StoreView,
    AccountView,
    Result<(), Error>,
) {
    match e.kind {
        TransactionKind::Deposit => {
            let x = e.amount.unwrap();
            (
                s,
                AccountView { available: a.available + x, total: a.total + x, ..a },
                Ok::<(), Error>(()),
            )
        },
        TransactionKind::Withdrawal => {
            let x = e.amount.unwrap();
            if a.available < x {
                (s, a, Err(Error { kind: ErrorKind::InsufficientFunds }))
            } else {
                (
                    s,
                    AccountView { available: a.available - x, total: a.total - x, ..a },
                    Ok::<(), Error>(()),
                )
            }
        },
        TransactionKind::Dispute => {
            if !s.txns.contains_key(e.id) {
                // Missing reference: ignored, not an error.
                (s, a, Ok::<(), Error>(()))
            } else {
                let rt = s.txns[e.id];
                let x = rt.amount.unwrap();
                if !(rt.kind is Deposit) {
                    (s, a, Err(Error { kind: ErrorKind::WrongReference(e.id) }))
                } else if a.client != rt.client_id || rt.client_id != e.client_id {
                    (s, a, Err(Error { kind: ErrorKind::WrongClient(e.id, a.client, e.client_id) }))
                } else if rt.under_dispute {
                    (s, a, Err(Error { kind: ErrorKind::DoubleDispute(e.id) }))
                } else if a.available < x {
                    (s, a, Err(Error { kind: ErrorKind::InsufficientFunds }))
                } else {
                    (
                        StoreView { txns: set_flag(s.txns, e.id, true), ..s },
                        AccountView { available: a.available - x, held: a.held + x, ..a },
                        Ok::<(), Error>(()),
                    )
                }
            }
        },
        TransactionKind::Resolve => {
            if !s.txns.contains_key(e.id) {
                (s, a, Ok::<(), Error>(()))
            } else {
                let rt = s.txns[e.id];
                let x = rt.amount.unwrap();
                if !(rt.kind is Deposit) {
                    (s, a, Err(Error { kind: ErrorKind::WrongReference(e.id) }))
                } else if a.client != rt.client_id || rt.client_id != e.client_id {
                    (s, a, Err(Error { kind: ErrorKind::WrongClient(e.id, a.client, e.client_id) }))
                } else if a.held < x {
                    (s, a, Err(Error { kind: ErrorKind::InsufficientFunds }))
                } else if !rt.under_dispute {
                    // Not under dispute: ignored, not an error.
                    (s, a, Ok::<(), Error>(()))
                } else {
                    (
                        StoreView { txns: set_flag(s.txns, e.id, false), ..s },
                        AccountView { held: a.held - x, available: a.available + x, ..a },
                        Ok::<(), Error>(()),
                    )
                }
            }
        },
        TransactionKind::ChargeBack => {
            if !s.txns.contains_key(e.id) {
                (s, a, Ok::<(), Error>(()))
            } else {
                let rt = s.txns[e.id];
                let x = rt.amount.unwrap();
                if !(rt.kind is Deposit) {
                    (s, a, Err(Error { kind: ErrorKind::WrongReference(e.id) }))
                } else if a.client != rt.client_id || rt.client_id != e.client_id {
                    (s, a, Err(Error { kind: ErrorKind::WrongClient(e.id, a.client, e.client_id) }))
                } else if a.held < x {
                    (s, a, Err(Error { kind: ErrorKind::InsufficientFunds }))
                } else if !rt.under_dispute {
                    (s, a, Ok::<(), Error>(()))
                } else {
                    (
                        StoreView { txns: set_flag(s.txns, e.id, false), ..s },
                        AccountView { held: a.held - x, total: a.total - x, locked: true, ..a },
                        Ok::<(), Error>(()),
                    )
                }
            }
        },
    }
}

/// The full per-event protocol, as a pure function from store state and
/// event to the next store state and the event's outcome:
/// (a) a negative amount drops the event silently; (b) a Deposit/Withdrawal
/// is persisted first, a duplicate id aborting the event; (c) a locked
/// account refuses the event; (d) the kind-specific transition runs on a
/// copy of the account; (e) on success the copy is persisted; (f) on any
/// failure after (b) the compensating rollback runs.
pub open spec fn step(s: StoreView, e: TxnView) -> (StoreView, Result<(), Error>) {
    if !e.valid_amount() {
        (s, Ok::<(), Error>(()))
    } else if e.creates_record() && s.txns.contains_key(e.id) {
        (s, Err(Error { kind: ErrorKind::DuplicateTransaction }))
    } else {
        let s1 = if e.creates_record() {
            StoreView { txns: s.txns.insert(e.id, e), ..s }
        } else {
            s
        };
        let a = s.account_of(e.client_id);
        if a.locked {
            (rollback_state(s, e), Err(Error { kind: ErrorKind::AccountLocked }))
        } else {
            let (s2, a2, res) = apply_step(s1, a, e);
            if res is Ok {
                (StoreView { accounts: s2.accounts.insert(e.client_id, a2), ..s2 }, res)
            } else {
                (rollback_state(s, e), res)
            }
        }
    }
}

/// Machine limit on deposits: where the protocol would grow a balance, the
/// grown total must still be representable.
pub open spec fn deposit_fits(s: StoreView, e: TxnView) -> bool {
    (e.kind is Deposit && e.valid_amount() && e.amount is Some && !s.txns.contains_key(e.id)
        && !s.account_of(e.client_id).locked) ==> s.account_of(e.client_id).total
        + e.amount.unwrap() <= i64::MAX
}

/// The models of a sequence of events.
pub open spec fn views_of(ts: Seq<Transaction>) -> Seq<TxnView> {
    ts.map_values(|t: Transaction| t@)
}

/// Every event in the sequence has the decoder's shape (see
/// [`TxnView::wf_event`]).
pub open spec fn wf_events(es: Seq<TxnView>) -> bool {
    forall|i: int| 0 <= i < es.len() ==> (#[trigger] es[i]).wf_event()
}

/// The store state after a whole sequence of events, applied in order.
pub open spec fn run(s: StoreView, es: Seq<TxnView>) -> StoreView
    decreases es.len(),
{
    if es.len() == 0 {
        s
    } else {
        run(step(s, es[0]).0, es.drop_first())
    }
}

/// [`deposit_fits`] holds at every intermediate state of the run.
pub open spec fn batch_fits(s: StoreView, es: Seq<TxnView>) -> bool
    decreases es.len(),
{
    es.len() == 0 || (deposit_fits(s, es[0]) && batch_fits(step(s, es[0]).0, es.drop_first()))
}

/// Unfolding a run one event at a time from the back: the state after the
/// first `i + 1` events is one step past the state after the first `i`.
pub proof fn lemma_run_snoc(s: StoreView, es: Seq<TxnView>, i: int)
    requires
        0 <= i < es.len(),
    ensures
        run(s, es.take(i + 1)) == step(run(s, es.take(i)), es[i]).0,
    decreases i,
{
    if i == 0 {
        assert(es.take(1).drop_first() =~= Seq::<TxnView>::empty());
        assert(es.take(0) =~= Seq::<TxnView>::empty());
        assert(es.take(1)[0] == es[0]);
        assert(run(step(s, es[0]).0, es.take(1).drop_first()) == step(s, es[0]).0);
        assert(run(s, es.take(1)) == step(s, es[0]).0);
        assert(run(s, es.take(0)) == s);
    } else {
        let s0 = step(s, es[0]).0;
        let rest = es.drop_first();
        lemma_run_snoc(s0, rest, i - 1);
        assert(es.take(i + 1)[0] == es[0]);
        assert(es.take(i)[0] == es[0]);
        assert(es.take(i + 1).drop_first() =~= rest.take(i));
        assert(es.take(i).drop_first() =~= rest.take(i - 1));
        assert(rest[i - 1] == es[i]);
        assert(run(s, es.take(i + 1)) == run(s0, rest.take(i)));
        assert(run(s, es.take(i)) == run(s0, rest.take(i - 1)));
    }
}

/// The store invariant is preserved by every event: after any step, every
/// account still satisfies `total == available + held` with non-negative
/// parts under its own client id, and every stored record is still a valid
/// Deposit/Withdrawal copy.
pub proof fn lemma_step_preserves_wf(s: StoreView, e: TxnView)
    requires
        s.wf(),
        e.creates_record() ==> e.amount is Some,
    ensures
        step(s, e).0.wf(),
{
    let s_next = step(s, e).0;
    assert forall|id: u32| #[trigger] s_next.txns.contains_key(id) implies crate::store::wf_record(
        id,
        s_next.txns[id],
    ) by {}
    assert forall|c: u16| #[trigger] s_next.accounts.contains_key(c) implies s_next.accounts[
        c
    ].client == c && s_next.accounts[c].wf() by {}
}

/// An event with a negative amount is dropped before any store
/// interaction: the store (records and accounts alike) is exactly what it
/// was, and no error surfaces.
pub proof fn lemma_invalid_amount_dropped(s: StoreView, e: TxnView)
    requires
        !e.valid_amount(),
    ensures
        step(s, e).0 == s,
        step(s, e).1 == Ok::<(), Error>(()),
{
}

/// A Withdrawal exceeding the available funds is rejected and leaves the
/// whole store unchanged: the record inserted in protocol step (b) is
/// removed again by the rollback.
pub proof fn lemma_overdraw_rejected(s: StoreView, w: TxnView)
    requires
        w.kind is Withdrawal,
        w.amount matches Some(x) && x >= 0,
        !s.txns.contains_key(w.id),
        !s.account_of(w.client_id).locked,
        s.account_of(w.client_id).available < w.amount.unwrap(),
    ensures
        step(s, w).0 == s,
        step(s, w).1 == Err::<(), Error>(Error { kind: ErrorKind::InsufficientFunds }),
{
}

/// A Dispute referencing a transaction id that is not in the store is a
/// silent no-op: every account keeps its value, the records are untouched,
/// and no error surfaces.
pub proof fn lemma_missing_reference_ignored(s: StoreView, e: TxnView)
    requires
        e.kind is Dispute,
        e.valid_amount(),
        !s.txns.contains_key(e.id),
        !s.account_of(e.client_id).locked,
    ensures
        step(s, e).0.txns == s.txns,
        forall|c: u16| #[trigger] step(s, e).0.account_of(c) == s.account_of(c),
        step(s, e).1 == Ok::<(), Error>(()),
{
    let s_next = step(s, e).0;
    assert forall|c: u16| #[trigger] s_next.account_of(c) == s.account_of(c) by {
        if c == e.client_id {
            assert(s_next.accounts[c] == s.account_of(c));
        }
    }
}

/// Depositing an amount and then withdrawing the same amount on an
/// unlocked account returns the account to its prior balances.
pub proof fn lemma_deposit_withdraw_roundtrip(s: StoreView, d: TxnView, w: TxnView)
    requires
        s.wf(),
        d.kind is Deposit,
        w.kind is Withdrawal,
        d.client_id == w.client_id,
        d.amount == w.amount,
        d.amount matches Some(x) && x >= 0,
        !s.txns.contains_key(d.id),
        w.id != d.id && !s.txns.contains_key(w.id),
        !s.account_of(d.client_id).locked,
    ensures
        step(s, d).1 is Ok,
        step(step(s, d).0, w).1 is Ok,
        ({
            let after = step(step(s, d).0, w).0.account_of(d.client_id);
            let before = s.account_of(d.client_id);
            after.available == before.available && after.held == before.held && after.total
                == before.total && after.locked == before.locked
        }),
{
    let c = d.client_id;
    let s1 = step(s, d).0;
    assert(s1.account_of(c).available == s.account_of(c).available + d.amount.unwrap());
    assert(!s1.txns.contains_key(w.id));
}

/// Disputing the same transaction twice in sequence: the second Dispute is
/// rejected as a double dispute and no account changes — the balances
/// reflect only the first.
pub proof fn lemma_double_dispute_rejected(s: StoreView, e: TxnView)
    requires
        s.wf(),
        e.kind is Dispute,
        e.valid_amount(),
        !s.account_of(e.client_id).locked,
        s.txns.contains_key(e.id),
        s.txns[e.id].kind is Deposit,
        s.txns[e.id].client_id == e.client_id,
        !s.txns[e.id].under_dispute,
        s.account_of(e.client_id).available >= s.txns[e.id].amount.unwrap(),
    ensures
        step(s, e).1 is Ok,
        step(step(s, e).0, e).1 == Err::<(), Error>(Error { kind: ErrorKind::DoubleDispute(e.id) }),
        forall|c: u16| #[trigger]
            step(step(s, e).0, e).0.account_of(c) == step(s, e).0.account_of(c),
{
    let s1 = step(s, e).0;
    assert(s1.txns.contains_key(e.id) && s1.txns[e.id].under_dispute);
    assert(s1.account_of(e.client_id) == step(s, e).0.accounts[e.client_id]);
    assert(step(s1, e).0.accounts == s1.accounts);
}

/// A full deposit -> dispute -> chargeback sequence locks the account and
/// removes the disputed amount from the total: the balances end exactly
/// where they started, with the lock set.
pub proof fn lemma_chargeback_locks(s: StoreView, d: TxnView, dis: TxnView, cb: TxnView)
    requires
        s.wf(),
        d.kind is Deposit,
        d.amount matches Some(x) && x >= 0,
        !d.under_dispute,
        !s.txns.contains_key(d.id),
        !s.account_of(d.client_id).locked,
        dis.kind is Dispute,
        dis.id == d.id,
        dis.client_id == d.client_id,
        dis.valid_amount(),
        cb.kind is ChargeBack,
        cb.id == d.id,
        cb.client_id == d.client_id,
        cb.valid_amount(),
    ensures
        step(s, d).1 is Ok,
        step(step(s, d).0, dis).1 is Ok,
        step(step(step(s, d).0, dis).0, cb).1 is Ok,
        ({
            let after = step(step(step(s, d).0, dis).0, cb).0.account_of(d.client_id);
            let before = s.account_of(d.client_id);
            after == (AccountView { locked: true, ..before })
        }),
{
    let c = d.client_id;
    let s1 = step(s, d).0;
    let s2 = step(s1, dis).0;
    let s3 = step(s2, cb).0;
    assert(s1.txns.contains_key(d.id) && s1.txns[d.id] == d);
    assert(s1.account_of(c).available == s.account_of(c).available + d.amount.unwrap());
    assert(s2.txns.contains_key(d.id) && s2.txns[d.id].under_dispute);
    assert(s2.account_of(c).held == s.account_of(c).held + d.amount.unwrap());
    assert(s3.account_of(c) == (AccountView { locked: true, ..s.account_of(c) }));
}

/// Once an account is locked, no event for it changes its snapshot again,
/// and every event with a well-formed amount is rejected (as a duplicate
/// where protocol step (b) already refuses it, as `AccountLocked`
/// otherwise).
pub proof fn lemma_locked_account_rejected(s: StoreView, e: TxnView)
    requires
        s.account_of(e.client_id).locked,
    ensures
        step(s, e).0.account_of(e.client_id) == s.account_of(e.client_id),
        e.valid_amount() && e.creates_record() && s.txns.contains_key(e.id) ==> step(s, e).1
            == Err::<(), Error>(Error { kind: ErrorKind::DuplicateTransaction }),
        e.valid_amount() && !(e.creates_record() && s.txns.contains_key(e.id)) ==> step(s, e).1
            == Err::<(), Error>(Error { kind: ErrorKind::AccountLocked }),
        !e.valid_amount() ==> step(s, e).1 == Ok::<(), Error>(()),
{
}

/// One engine instance, bound to one processing lane; all events for a
/// given client are handed to the same instance in arrival order.
#[derive(Debug)]
pub struct Engine<S: Store> {
    pub store: S,
}

impl<S: Store> View for Engine<S> {
    type V = StoreView;

    open spec fn view(&self) -> StoreView {
        self.store@
    }
}

impl<S: Store> Engine<S> {
    pub fn new(store: S) -> (e: Self)
        ensures
            e@ == store@,
    {
        Engine { store }
    }

    /// Move `amount` into the account: both available and total grow.
    fn deposit(&self, account: &mut Account, amount: i64) -> (r: Result<(), Error>)
        requires
            0 <= amount,
            old(account)@.wf(),
            old(account)@.total + amount <= i64::MAX,
        ensures
            final(account)@ == (AccountView {
                available: old(account)@.available + amount,
                total: old(account)@.total + amount,
                ..old(account)@
            }),
            r == Ok::<(), Error>(()),
    {
        account.available = account.available + amount;
        account.total = account.total + amount;
        Ok(())
    }

    /// Take `amount` out of the available part, refusing to overdraw.
    fn withdrawal(&self, account: &mut Account, amount: i64) -> (r: Result<(), Error>)
        requires
            0 <= amount,
            old(account)@.wf(),
        ensures
            old(account)@.available < amount ==> *final(account) == *old(account) && (r matches Err(e)
                && e.kind == ErrorKind::InsufficientFunds),
            old(account)@.available >= amount ==> final(account)@ == (AccountView {
                available: old(account)@.available - amount,
                total: old(account)@.total - amount,
                ..old(account)@
            }) && r == Ok::<(), Error>(()),
    {
        if account.available < amount {
            return Err(Error::new(ErrorKind::InsufficientFunds));
        }
        account.available = account.available - amount;
        account.total = account.total - amount;
        Ok(())
    }

    /// Freeze the referenced deposit's amount: available -> held, and mark
    /// the record under dispute.
    fn dispute(&mut self, account: &mut Account, info: &Transaction) -> (r: Result<(), Error>)
        requires
            old(self)@.wf(),
            old(account)@.wf(),
            info@.kind is Dispute,
        ensures
            final(self)@ == apply_step(old(self)@, old(account)@, info@).0,
            final(account)@ == apply_step(old(self)@, old(account)@, info@).1,
            r == apply_step(old(self)@, old(account)@, info@).2,
    {
        let ref_transaction = self.store.get_transaction(info.id);
        match ref_transaction {
            Err(_) => {
                // Missing reference: ignored.
                Ok(())
            },
            Ok(ref_tx) => {
                if ref_tx.kind == TransactionKind::Deposit {
                    let ref_amount = ref_tx.amount.unwrap();
                    if account.client != ref_tx.client_id || ref_tx.client_id != info.client_id {
                        return Err(
                            Error::new(
                                ErrorKind::WrongClient(info.id, account.client, info.client_id),
                            ),
                        );
                    } else if ref_tx.under_dispute {
                        return Err(Error::new(ErrorKind::DoubleDispute(info.id)));
                    } else if account.available < ref_amount {
                        return Err(Error::new(ErrorKind::InsufficientFunds));
                    }
                    account.available = account.available - ref_amount;
                    account.held = account.held + ref_amount;
                    let set = self.store.set_transaction_under_dispute(info.id, true);
                    if set.is_err() {
                        return set;
                    }
                    proof {
                        assert(self@ =~= apply_step(old(self)@, old(account)@, info@).0);
                    }
                    Ok(())
                } else {
                    Err(Error::new(ErrorKind::WrongReference(info.id)))
                }
            },
        }
    }

    /// Release the referenced deposit's disputed amount: held -> available,
    /// and clear the record's dispute flag.
    fn resolve(&mut self, account: &mut Account, info: &Transaction) -> (r: Result<(), Error>)
        requires
            old(self)@.wf(),
            old(account)@.wf(),
            info@.kind is Resolve,
        ensures
            final(self)@ == apply_step(old(self)@, old(account)@, info@).0,
            final(account)@ == apply_step(old(self)@, old(account)@, info@).1,
            r == apply_step(old(self)@, old(account)@, info@).2,
    {
        let ref_transaction = self.store.get_transaction(info.id);
        match ref_transaction {
            Err(_) => {
                // Missing reference: ignored.
                Ok(())
            },
            Ok(ref_tx) => {
                if ref_tx.kind == TransactionKind::Deposit {
                    let ref_amount = ref_tx.amount.unwrap();
                    if account.client != ref_tx.client_id || ref_tx.client_id != info.client_id {
                        return Err(
                            Error::new(
                                ErrorKind::WrongClient(info.id, account.client, info.client_id),
                            ),
                        );
                    } else if account.held < ref_amount {
                        return Err(Error::new(ErrorKind::InsufficientFunds));
                    } else if !ref_tx.under_dispute {
                        // Not under dispute: ignored.
                        return Ok(());
                    }
                    account.held = account.held - ref_amount;
                    account.available = account.available + ref_amount;
                    let set = self.store.set_transaction_under_dispute(info.id, false);
                    if set.is_err() {
                        return set;
                    }
                    proof {
                        assert(self@ =~= apply_step(old(self)@, old(account)@, info@).0);
                    }
                    Ok(())
                } else {
                    Err(Error::new(ErrorKind::WrongReference(info.id)))
                }
            },
        }
    }

    /// Charge the referenced deposit back: the held amount leaves the
    /// account for good and the account is locked.
    fn chargeback(&mut self, account: &mut Account, info: &Transaction) -> (r: Result<(), Error>)
        requires
            old(self)@.wf(),
            old(account)@.wf(),
            info@.kind is ChargeBack,
        ensures
            final(self)@ == apply_step(old(self)@, old(account)@, info@).0,
            final(account)@ == apply_step(old(self)@, old(account)@, info@).1,
            r == apply_step(old(self)@, old(account)@, info@).2,
    {
        let ref_transaction = self.store.get_transaction(info.id);
        match ref_transaction {
            Err(_) => {
                // Missing reference: ignored.
                Ok(())
            },
            Ok(ref_tx) => {
                if ref_tx.kind == TransactionKind::Deposit {
                    let ref_amount = ref_tx.amount.unwrap();
                    if account.client != ref_tx.client_id || ref_tx.client_id != info.client_id {
                        return Err(
                            Error::new(
                                ErrorKind::WrongClient(info.id, account.client, info.client_id),
                            ),
                        );
                    } else if account.held < ref_amount {
                        return Err(Error::new(ErrorKind::InsufficientFunds));
                    } else if !ref_tx.under_dispute {
                        // Not under dispute: ignored.
                        return Ok(());
                    }
                    account.held = account.held - ref_amount;
                    account.total = account.total - ref_amount;
                    account.locked = true;
                    let set = self.store.set_transaction_under_dispute(info.id, false);
                    if set.is_err() {
                        return set;
                    }
                    proof {
                        assert(self@ =~= apply_step(old(self)@, old(account)@, info@).0);
                    }
                    Ok(())
                } else {
                    Err(Error::new(ErrorKind::WrongReference(info.id)))
                }
            },
        }
    }

    /// Apply the kind-specific transition to an in-memory copy of the
    /// account, leaving persistence and rollback to the caller.
    pub fn apply_transaction(&mut self, account: &mut Account, transaction: &Transaction) -> (r:
        Result<(), Error>)
        requires
            old(self)@.wf(),
            old(account)@.wf(),
            transaction@.valid_amount(),
            transaction@.creates_record() ==> transaction@.amount is Some,
            transaction@.kind is Deposit ==> old(account)@.total + transaction@.amount.unwrap()
                <= i64::MAX,
        ensures
            final(self)@ == apply_step(old(self)@, old(account)@, transaction@).0,
            final(account)@ == apply_step(old(self)@, old(account)@, transaction@).1,
            r == apply_step(old(self)@, old(account)@, transaction@).2,
    {
        match transaction.kind {
            TransactionKind::Deposit => self.deposit(account, transaction.amount.unwrap()),
            TransactionKind::Withdrawal => self.withdrawal(account, transaction.amount.unwrap()),
            TransactionKind::Dispute => self.dispute(account, transaction),
            TransactionKind::Resolve => self.resolve(account, transaction),
            TransactionKind::ChargeBack => self.chargeback(account, transaction),
        }
    }

    /// Process one event through the full protocol. The outcome is `Ok` both
    /// for applied events and for the silent no-ops (invalid amount, missing
    /// reference, resolve/chargeback of an undisputed record); every
    /// rejection is returned as its error, the event then having left no
    /// trace beyond the defensive rollback of [`rollback_state`].
    pub fn process_txn(&mut self, transaction: &Transaction) -> (r: Result<(), Error>)
        requires
            old(self)@.wf(),
            transaction@.wf_event(),
            deposit_fits(old(self)@, transaction@),
        ensures
            final(self)@ == step(old(self)@, transaction@).0,
            r == step(old(self)@, transaction@).1,
            final(self)@.wf(),
    {
        proof {
            lemma_step_preserves_wf(old(self)@, transaction@);
        }
        if !transaction.is_valid_amount() {
            return Ok(());
        }
        let added = self.store.add_transaction(*transaction);
        if let Err(e) = added {
            return Err(e);
        }
        let account_loaded = self.store.get_account(transaction.client_id);
        let mut account = match account_loaded {
            Ok(a) => a,
            Err(e) => {
                // get_account never fails.
                proof {
                    assert(false);
                }
                return Err(e);
            },
        };
        let outcome: Result<(), Error> = if account.locked {
            Err(Error::new(ErrorKind::AccountLocked))
        } else {
            proof {
                assert(account@.wf() && account@.client == transaction@.client_id) by {
                    assert(old(self)@.wf());
                };
            }
            match self.apply_transaction(&mut account, transaction) {
                Ok(_) => self.store.update_account(&account),
                Err(e) => Err(e),
            }
        };
        match outcome {
            Ok(_) => {
                proof {
                    assert(self@ =~= step(old(self)@, transaction@).0);
                }
                Ok(())
            },
            Err(e) => {
                match transaction.kind {
                    TransactionKind::Deposit | TransactionKind::Withdrawal => {
                        let deleted = self.store.delete_transaction(transaction.id);
                        if let Err(rollback_failure) = deleted {
                            return Err(rollback_failure);
                        }
                    },
                    TransactionKind::Dispute => {
                        let reset = self.store.set_transaction_under_dispute(transaction.id, false);
                        if let Err(rollback_failure) = reset {
                            return Err(rollback_failure);
                        }
                    },
                    TransactionKind::Resolve | TransactionKind::ChargeBack => {
                        let reset = self.store.set_transaction_under_dispute(transaction.id, true);
                        if let Err(rollback_failure) = reset {
                            return Err(rollback_failure);
                        }
                    },
                }
                proof {
                    assert(self@ =~= step(old(self)@, transaction@).0);
                }
                Err(e)
            },
        }
    }

    /// Feed a whole sequence of events through the protocol, in order. A
    /// rejected event is final for that event only; the lane continues with
    /// the next one, as the per-event outcomes are already pinned down by
    /// [`step`].
    pub fn process_batch(&mut self, transactions: &Vec<Transaction>)
        requires
            old(self)@.wf(),
            wf_events(views_of(transactions@)),
            batch_fits(old(self)@, views_of(transactions@)),
        ensures
            final(self)@ == run(old(self)@, views_of(transactions@)),
            final(self)@.wf(),
    {
        let ghost es = views_of(transactions@);
        proof {
            assert(es.skip(0) =~= es);
            assert(es.take(0) =~= Seq::<TxnView>::empty());
        }
        let n = transactions.len();
        for i in 0..n
            invariant
                n == transactions@.len(),
                es == views_of(transactions@),
                wf_events(es),
                self@ == run(old(self)@, es.take(i as int)),
                self@.wf(),
                batch_fits(self@, es.skip(i as int)),
        {
            proof {
                assert(es.skip(i as int)[0] == es[i as int]);
                assert(es[i as int] == transactions@[i as int]@);
            }
            let transaction = &transactions[i];
            match self.process_txn(transaction) {
                Ok(_) => {},
                Err(_) => {
                    // The rejection is final for this event; the lane goes on.
                },
            }
            proof {
                lemma_run_snoc(old(self)@, es, i as int);
                assert(es.skip(i as int).drop_first() =~= es.skip(i + 1 as int));
            }
        }
        proof {
            assert(es.take(n as int) =~= es);
        }
    }

    /// Drain the store into a sequence of account snapshots, order
    /// unspecified. On a well-formed store each emitted snapshot is the one
    /// stored under its own client id.
    pub fn report(&self) -> (r: Result<Vec<Account>, Error>)
        ensures
            r matches Ok(v) && crate::store::report_of(self@, v@),
            self@.wf() ==> (r matches Ok(v) && forall|i: int|
                0 <= i < v@.len() ==> self@.accounts.contains_key((#[trigger] v@[i]).client)
                    && self@.accounts[v@[i].client] == v@[i]@),
    {
        let r = self.store.get_all_accounts();
        proof {
            if self@.wf() {
                let v = r.unwrap();
                assert forall|i: int|
                    0 <= i < v@.len() implies self@.accounts.contains_key(
                    (#[trigger] v@[i]).client,
                ) && self@.accounts[v@[i].client] == v@[i]@ by {
                    assert(crate::store::contains_snapshot(self@, v@[i]));
                    let c = choose|c: u16|
                        (#[trigger] self@.accounts.contains_key(c)) && self@.accounts[c] == v@[i]@;
                    assert(self@.accounts[c].client == c);
                }
            }
        }
        r
    }
}

} // verus!

