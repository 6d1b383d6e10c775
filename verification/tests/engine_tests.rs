use payments_engine::account::Account;
use payments_engine::engine::Engine;
use payments_engine::error::ErrorKind;
use payments_engine::mem_store::MemStore;
use payments_engine::store::Store;
use payments_engine::transactions::{Transaction, TransactionKind, UNITS_PER_WHOLE};

fn whole(n: i64) -> i64 {
    n * UNITS_PER_WHOLE
}

#[test]
fn test_deposit() {
    let account = Account::new(1);
    let mut store = MemStore::default();
    store.update_account(&account).unwrap();
    let mut engine = Engine::new(store);

    engine
        .process_txn(&Transaction::new(TransactionKind::Deposit, 1, 1, Some(whole(10))))
        .unwrap();

    let account = engine.store.get_account(1).unwrap();
    assert_eq!(account.available, whole(10));
    assert_eq!(account.held, 0);
    assert_eq!(account.total, whole(10));
}

#[test]
fn test_withdrawal() {
    let account = Account::load(1, whole(10), 0, false);
    let mut store = MemStore::default();
    store.update_account(&account).unwrap();
    let mut engine = Engine::new(store);

    engine
        .process_txn(&Transaction::new(TransactionKind::Withdrawal, 1, 1, Some(whole(5))))
        .unwrap();

    let account = engine.store.get_account(1).unwrap();
    assert_eq!(account.available, whole(5));
    assert_eq!(account.held, 0);
    assert_eq!(account.total, whole(5));
}

#[test]
fn test_withdrawal_insufficient_funds() {
    let account = Account::load(1, whole(5), 0, false);
    let mut store = MemStore::default();
    store.update_account(&account).unwrap();
    let mut engine = Engine::new(store);

    let result =
        engine.process_txn(&Transaction::new(TransactionKind::Withdrawal, 1, 1, Some(whole(10))));
    assert!(matches!(result.unwrap_err().kind, ErrorKind::InsufficientFunds));

    let account = engine.store.get_account(1).unwrap();
    assert_eq!(account.available, whole(5));
    assert_eq!(account.held, 0);
    assert_eq!(account.total, whole(5));
}

#[test]
fn test_locked_account() {
    let account = Account::load(1, whole(10), 0, true);
    let mut store = MemStore::default();
    store.update_account(&account).unwrap();
    let mut engine = Engine::new(store);

    let events = vec![
        Transaction::new(TransactionKind::Deposit, 1, 2, Some(whole(10))),
        Transaction::new(TransactionKind::Withdrawal, 1, 3, Some(whole(10))),
        Transaction::new(TransactionKind::Resolve, 1, 1, None),
        Transaction::new(TransactionKind::ChargeBack, 1, 1, None),
    ];
    engine.process_batch(&events);

    let account = engine.store.get_account(1).unwrap();
    assert_eq!(account.available, whole(10));
    assert_eq!(account.held, 0);
    assert_eq!(account.total, whole(10));
    assert!(account.locked);
}

#[test]
fn test_dispute() {
    let txn_id = 2;
    let account = Account::load(1, whole(10), 0, false);
    let mut store = MemStore::default();
    store
        .add_transaction(Transaction::new(TransactionKind::Deposit, 1, txn_id, Some(whole(10))))
        .unwrap();
    store.update_account(&account).unwrap();
    let mut engine = Engine::new(store);

    engine.process_txn(&Transaction::new(TransactionKind::Dispute, 1, 2, None)).unwrap();

    let transaction = engine.store.get_transaction(txn_id).unwrap();
    assert_eq!(transaction.under_dispute, true);

    let account = engine.store.get_account(1).unwrap();
    assert_eq!(account.available, 0);
    assert_eq!(account.held, whole(10));
    assert_eq!(account.total, whole(10));
}

#[test]
fn test_dispute_on_wrong_transaction() {
    let account = Account::load(1, whole(10), 0, false);
    let mut store = MemStore::default();
    store
        .add_transaction(Transaction::new(TransactionKind::Deposit, 1, 1, Some(whole(10))))
        .unwrap();
    store
        .add_transaction(Transaction::new(TransactionKind::Withdrawal, 1, 2, Some(whole(10))))
        .unwrap();
    store.update_account(&account).unwrap();
    let mut engine = Engine::new(store);

    // The referenced record is a Withdrawal, not a Deposit.
    let result = engine.process_txn(&Transaction::new(TransactionKind::Dispute, 1, 2, None));
    assert!(matches!(result.unwrap_err().kind, ErrorKind::WrongReference(2)));

    let account = engine.store.get_account(1).unwrap();
    assert_eq!(account.available, whole(10));
    assert_eq!(account.held, 0);
    assert_eq!(account.total, whole(10));
}

#[test]
fn test_dispute_on_transaction_already_under_dispute() {
    let account = Account::load(1, whole(10), 0, false);
    let mut store = MemStore::default();
    let mut txn = Transaction::new(TransactionKind::Deposit, 1, 2, Some(whole(10)));
    txn.set_under_dispute(true);
    store.add_transaction(txn).unwrap();
    store.update_account(&account).unwrap();
    let mut engine = Engine::new(store);

    let result = engine.process_txn(&Transaction::new(TransactionKind::Dispute, 1, 2, None));
    assert!(matches!(result.unwrap_err().kind, ErrorKind::DoubleDispute(2)));

    let account = engine.store.get_account(1).unwrap();
    assert_eq!(account.available, whole(10));
    assert_eq!(account.held, 0);
    assert_eq!(account.total, whole(10));
}

#[test]
fn test_dispute_with_insufficient_balance() {
    let account = Account::load(1, whole(5), 0, false);
    let mut store = MemStore::default();
    store
        .add_transaction(Transaction::new(TransactionKind::Deposit, 1, 2, Some(whole(10))))
        .unwrap();
    store.update_account(&account).unwrap();
    let mut engine = Engine::new(store);

    let result = engine.process_txn(&Transaction::new(TransactionKind::Dispute, 1, 2, None));
    assert!(matches!(result.unwrap_err().kind, ErrorKind::InsufficientFunds));

    let account = engine.store.get_account(1).unwrap();
    assert_eq!(account.available, whole(5));
    assert_eq!(account.held, 0);
    assert_eq!(account.total, whole(5));
}

#[test]
fn test_dispute_on_wrong_clientid() {
    let account_1 = Account::load(1, whole(10), 0, false);
    let account_2 = Account::load(2, whole(10), 0, false);
    let mut store = MemStore::default();
    store
        .add_transaction(Transaction::new(TransactionKind::Deposit, 1, 1, Some(whole(10))))
        .unwrap();
    store
        .add_transaction(Transaction::new(TransactionKind::Deposit, 2, 2, Some(whole(10))))
        .unwrap();
    store.update_account(&account_1).unwrap();
    store.update_account(&account_2).unwrap();
    let mut engine = Engine::new(store);

    let result = engine.process_txn(&Transaction::new(TransactionKind::Dispute, 1, 2, None));
    assert!(matches!(result.unwrap_err().kind, ErrorKind::WrongClient(2, 1, 1)));

    let transaction = engine.store.get_transaction(1).unwrap();
    assert_eq!(transaction.under_dispute, false);

    let transaction = engine.store.get_transaction(2).unwrap();
    assert_eq!(transaction.under_dispute, false);
}

#[test]
fn test_resolve_returns_funds() {
    let mut store = MemStore::default();
    store
        .add_transaction(Transaction::new(TransactionKind::Deposit, 7, 40, Some(whole(3))))
        .unwrap();
    store.update_account(&Account::load(7, whole(3), 0, false)).unwrap();
    let mut engine = Engine::new(store);

    engine.process_txn(&Transaction::new(TransactionKind::Dispute, 7, 40, None)).unwrap();
    engine.process_txn(&Transaction::new(TransactionKind::Resolve, 7, 40, None)).unwrap();

    let account = engine.store.get_account(7).unwrap();
    assert_eq!(account.available, whole(3));
    assert_eq!(account.held, 0);
    assert_eq!(account.total, whole(3));
    assert!(!account.locked);
    assert!(!engine.store.get_transaction(40).unwrap().under_dispute);
}

#[test]
fn test_resolve_not_under_dispute_ignored() {
    let mut store = MemStore::default();
    store
        .add_transaction(Transaction::new(TransactionKind::Deposit, 7, 40, Some(whole(3))))
        .unwrap();
    store.update_account(&Account::load(7, 0, whole(3), false)).unwrap();
    let mut engine = Engine::new(store);

    let result = engine.process_txn(&Transaction::new(TransactionKind::Resolve, 7, 40, None));
    assert!(result.is_ok());

    let account = engine.store.get_account(7).unwrap();
    assert_eq!(account.available, 0);
    assert_eq!(account.held, whole(3));
    assert_eq!(account.total, whole(3));
}
