use std::path::PathBuf;

use payments_engine::account::Account;
use payments_engine::logger::Logger;
use payments_engine::router::Router;
use payments_engine::transactions::{Transaction, TransactionKind, UNITS_PER_WHOLE};

#[test]
fn test_route_pins_client_to_one_lane() {
    let mut router = Router::new(2);

    let (shard_a, spawn_a) = router.route(1);
    assert_eq!(shard_a, 1);
    assert!(spawn_a);

    // The same client routes to the same lane, which is already running.
    let (shard_b, spawn_b) = router.route(1);
    assert_eq!(shard_b, shard_a);
    assert!(!spawn_b);

    // A colliding client shares the lane without spawning a new one.
    let (shard_c, spawn_c) = router.route(3);
    assert_eq!(shard_c, shard_a);
    assert!(!spawn_c);

    let (shard_d, spawn_d) = router.route(2);
    assert_eq!(shard_d, 0);
    assert!(spawn_d);
}

#[test]
fn test_shard_of_stays_below_worker_count() {
    let router = Router::new(3);
    for client in 0..100u16 {
        assert!(router.shard_of(client) < 3);
        assert_eq!(router.shard_of(client), client % 3);
    }
}

#[test]
fn test_display_precision_truncates() {
    let mut account = Account::load(1, 1_234_567, 2_000_050, false);
    account.to_max_display_precision();
    assert_eq!(account.available, 1_234_500);
    assert_eq!(account.held, 2_000_000);
    assert_eq!(account.total, 3_234_600);
}

#[test]
fn test_display_precision_keeps_whole_steps() {
    let mut account = Account::load(2, 5 * UNITS_PER_WHOLE, 0, true);
    account.to_max_display_precision();
    assert_eq!(account.available, 5 * UNITS_PER_WHOLE);
    assert_eq!(account.held, 0);
    assert_eq!(account.total, 5 * UNITS_PER_WHOLE);
    assert!(account.locked);
}

#[test]
fn test_account_load_derives_total() {
    let account = Account::load(5, 7, 11, false);
    assert_eq!(account.total, 18);
    assert_eq!(account.client, 5);
}

#[test]
fn test_is_valid_amount() {
    assert!(Transaction::new(TransactionKind::Deposit, 1, 1, Some(0)).is_valid_amount());
    assert!(Transaction::new(TransactionKind::Deposit, 1, 1, Some(5)).is_valid_amount());
    assert!(Transaction::new(TransactionKind::Dispute, 1, 1, None).is_valid_amount());
    assert!(!Transaction::new(TransactionKind::Deposit, 1, 1, Some(-1)).is_valid_amount());
    assert!(!Transaction::new(TransactionKind::Withdrawal, 1, 1, Some(-7)).is_valid_amount());
}

#[test]
fn test_logger_keeps_configuration() {
    let logger = Logger::new(PathBuf::from("./log"), String::from("debug"));
    assert_eq!(logger.logs_dir_path(), &PathBuf::from("./log"));
    assert_eq!(logger.filter(), "debug");
}
