//! Certificate lifecycle engine for an internal mTLS certification authority.
//!
//! The verified core: the status lattice and the record model, the store
//! capability with an in-memory implementation, the lifecycle queries,
//! issuance, renewal and revocation, the renewal loop's decisions, the leaf
//! and CA certificate profiles signed through OpenSSL, and the layered
//! configuration. Network transport, file persistence and the task runtime
//! live outside the library.

pub mod config;
pub mod decimal;
pub mod error;
pub mod laws;
pub mod manager;
pub mod profile;
pub mod query;
pub mod record;
pub mod rpc;
pub mod signing;
mod sources;
pub mod status;
pub mod store;
pub mod watcher;
