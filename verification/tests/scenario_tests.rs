use payments_engine::account::Account;
use payments_engine::engine::Engine;
use payments_engine::error::{Error, ErrorKind};
use payments_engine::mem_store::MemStore;
use payments_engine::store::Store;
use payments_engine::transactions::{Transaction, TransactionKind, UNITS_PER_WHOLE};

fn whole(n: i64) -> i64 {
    n * UNITS_PER_WHOLE
}

fn ledger_events() -> Vec<Transaction> {
    vec![
        Transaction::new(TransactionKind::Deposit, 1, 1, Some(whole(100))),
        Transaction::new(TransactionKind::Withdrawal, 1, 2, Some(whole(50))),
        Transaction::new(TransactionKind::Deposit, 2, 3, Some(whole(100))),
        Transaction::new(TransactionKind::Deposit, 1, 4, Some(whole(200))),
        Transaction::new(TransactionKind::Dispute, 1, 4, None),
        Transaction::new(TransactionKind::Resolve, 1, 4, None),
        Transaction::new(TransactionKind::Dispute, 2, 3, None),
        Transaction::new(TransactionKind::ChargeBack, 2, 3, None),
        Transaction::new(TransactionKind::Dispute, 1, 3, None),
    ]
}

fn run_ledger() -> Engine<MemStore> {
    let mut engine = Engine::new(MemStore::default());
    engine.process_batch(&ledger_events());
    engine
}

#[test]
fn test_process_transactions() {
    // Three runs against independent stores come out identical per account.
    for _ in 0..3 {
        let engine = run_ledger();

        let account = engine.store.get_account(1).unwrap();
        assert_eq!(account.available, whole(250));
        assert_eq!(account.held, 0);
        assert_eq!(account.total, whole(250));
        assert!(!account.locked);

        let account = engine.store.get_account(2).unwrap();
        assert_eq!(account.available, 0);
        assert_eq!(account.held, 0);
        assert_eq!(account.total, 0);
        assert!(account.locked);

        let report = engine.report().unwrap();
        assert_eq!(report.len(), 2);
    }
}

#[test]
fn test_per_client_projection_matches_full_run() {
    // Client 1's snapshot after the full run equals the snapshot after
    // running only client 1's events on a fresh store.
    let full = run_ledger();
    let mut only_c1 = Engine::new(MemStore::default());
    let events: Vec<Transaction> =
        ledger_events().into_iter().filter(|t| t.client_id == 1).collect();
    only_c1.process_batch(&events);

    assert_eq!(full.store.get_account(1).unwrap(), only_c1.store.get_account(1).unwrap());
}

#[test]
fn test_deposit_then_withdraw_restores_balances() {
    let mut engine = Engine::new(MemStore::default());
    engine.store.update_account(&Account::load(3, whole(2), 0, false)).unwrap();

    engine
        .process_txn(&Transaction::new(TransactionKind::Deposit, 3, 10, Some(whole(7))))
        .unwrap();
    engine
        .process_txn(&Transaction::new(TransactionKind::Withdrawal, 3, 11, Some(whole(7))))
        .unwrap();

    let account = engine.store.get_account(3).unwrap();
    assert_eq!(account.available, whole(2));
    assert_eq!(account.held, 0);
    assert_eq!(account.total, whole(2));
    assert!(!account.locked);
}

#[test]
fn test_dispute_missing_reference_is_noop() {
    let mut engine = Engine::new(MemStore::default());
    engine.store.update_account(&Account::load(4, whole(6), 0, false)).unwrap();

    let result = engine.process_txn(&Transaction::new(TransactionKind::Dispute, 4, 99, None));
    assert!(result.is_ok());

    let account = engine.store.get_account(4).unwrap();
    assert_eq!(account.available, whole(6));
    assert_eq!(account.held, 0);
    assert_eq!(account.total, whole(6));
    assert!(engine.store.get_transaction(99).is_err());
}

#[test]
fn test_second_dispute_rejected() {
    let mut engine = Engine::new(MemStore::default());
    engine
        .process_txn(&Transaction::new(TransactionKind::Deposit, 5, 20, Some(whole(4))))
        .unwrap();
    engine.process_txn(&Transaction::new(TransactionKind::Dispute, 5, 20, None)).unwrap();

    let after_first = engine.store.get_account(5).unwrap();
    let result = engine.process_txn(&Transaction::new(TransactionKind::Dispute, 5, 20, None));
    assert!(matches!(result.unwrap_err().kind, ErrorKind::DoubleDispute(20)));

    // The account reflects only the first dispute.
    assert_eq!(engine.store.get_account(5).unwrap(), after_first);
    assert_eq!(after_first.available, 0);
    assert_eq!(after_first.held, whole(4));
    assert_eq!(after_first.total, whole(4));
}

#[test]
fn test_chargeback_locks_account() {
    let mut engine = Engine::new(MemStore::default());
    engine
        .process_txn(&Transaction::new(TransactionKind::Deposit, 6, 30, Some(whole(9))))
        .unwrap();
    engine.process_txn(&Transaction::new(TransactionKind::Dispute, 6, 30, None)).unwrap();
    engine.process_txn(&Transaction::new(TransactionKind::ChargeBack, 6, 30, None)).unwrap();

    let account = engine.store.get_account(6).unwrap();
    assert!(account.locked);
    assert_eq!(account.available, 0);
    assert_eq!(account.held, 0);
    assert_eq!(account.total, 0);

    // Every further event for the account is rejected.
    let result = engine.process_txn(&Transaction::new(TransactionKind::Deposit, 6, 31, Some(1)));
    assert!(matches!(result.unwrap_err().kind, ErrorKind::AccountLocked));
    assert_eq!(engine.store.get_account(6).unwrap(), account);
}

#[test]
fn test_negative_amount_never_reaches_store() {
    let mut engine = Engine::new(MemStore::default());
    let result = engine.process_txn(&Transaction::new(TransactionKind::Deposit, 8, 50, Some(-1)));
    assert!(result.is_ok());

    // No record stored, no account mutated.
    assert!(engine.store.get_transaction(50).is_err());
    assert_eq!(engine.store.get_account(8).unwrap(), Account::new(8));
    assert_eq!(engine.report().unwrap().len(), 0);

    let result =
        engine.process_txn(&Transaction::new(TransactionKind::Withdrawal, 8, 51, Some(-5)));
    assert!(result.is_ok());
    assert!(engine.store.get_transaction(51).is_err());
}

#[test]
fn test_total_is_available_plus_held_after_every_event() {
    let mut engine = Engine::new(MemStore::default());
    for (i, event) in ledger_events().iter().enumerate() {
        let _outcome = engine.process_txn(event);
        for account in engine.report().unwrap() {
            assert_eq!(account.total, account.available + account.held, "event {}", i);
            assert!(account.available >= 0);
            assert!(account.held >= 0);
        }
    }
}

#[test]
fn test_duplicate_transaction_rejected() {
    let mut engine = Engine::new(MemStore::default());
    engine
        .process_txn(&Transaction::new(TransactionKind::Deposit, 9, 60, Some(whole(1))))
        .unwrap();
    let result =
        engine.process_txn(&Transaction::new(TransactionKind::Deposit, 9, 60, Some(whole(1))));
    assert!(matches!(result.unwrap_err().kind, ErrorKind::DuplicateTransaction));

    // The first deposit stands; the duplicate left no trace.
    let account = engine.store.get_account(9).unwrap();
    assert_eq!(account.total, whole(1));
}

#[test]
fn test_error_messages() {
    assert_eq!(
        Error::new(ErrorKind::DuplicateTransaction).message(),
        "Store error Transaction with transaction id exists."
    );
    assert_eq!(
        Error::new(ErrorKind::NotFound).message(),
        "Store error Transaction with transaction Id does not exist."
    );
    assert_eq!(Error::new(ErrorKind::AccountLocked).message(), "Engine error Account locked");
    assert_eq!(
        Error::new(ErrorKind::InsufficientFunds).message(),
        "Insufficient available funds"
    );
    assert_eq!(
        Error::new(ErrorKind::WrongClient(7, 1, 2)).message(),
        "Wrong client_id in transaction"
    );
    assert_eq!(Error::new(ErrorKind::DoubleDispute(7)).message(), "Double dispute for tx");
    assert_eq!(
        Error::new(ErrorKind::WrongReference(7)).message(),
        "Wrong reference for transaction"
    );
    assert_eq!(Error::new(ErrorKind::JoinFailure).message(), "Failed to join an engine worker");
    assert_eq!(Error::new(ErrorKind::IOFailure).message(), "IO failure");
}
