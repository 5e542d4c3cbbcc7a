//! An account-balance ledger with an append-only event log.
//!
//! Commands mutate an in-memory ledger and commit the changed accounts
//! together with one event record through a single atomic batch write
//! to a key-value store. A publisher drains the event log to a message
//! bus and advances its durable offset only after an acknowledgment.

pub mod balance;
pub mod balance_api;
pub mod balance_error;
pub mod balance_event;
pub mod balance_event_api;
pub mod balance_event_emitter_job;
pub mod balance_event_repository;
pub mod balance_payload;
pub mod balance_query_api;
pub mod balance_repository;
pub mod codec;
pub mod common_response;
pub mod consistency;
pub mod create_balance_api;
pub mod deposit_balance_api;
pub mod encoding;
pub mod layout;
pub mod memory_store;
pub mod server_config;
pub mod store;
pub mod transaction;
pub mod transfer_balance_api;
pub mod withdraw_balance_api;
