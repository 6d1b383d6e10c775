//! A concurrent-ledger transaction engine: events (deposits, withdrawals,
//! disputes, resolutions, chargebacks) are validated and applied to
//! per-client account snapshots held in a transactional in-memory store.
//!
//! The crate verifies the core: the account state machine with its
//! dispute/resolve/chargeback lifecycle and compensating rollbacks, the
//! ledger store it runs against, the shard router that assigns clients to
//! processing lanes, and the report drain. Byte-level decoding/encoding and
//! the async plumbing around the engine are thin adapters that live outside
//! the library.

pub mod account;
pub mod determinism;
pub mod engine;
pub mod error;
pub mod logger;
pub mod mem_store;
pub mod router;
pub mod store;
pub mod transactions;
