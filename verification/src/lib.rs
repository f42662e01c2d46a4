//! A custody bridge for non-fungible assets: tokens are locked on the local
//! chain while a request travels to a remote chain over a single transport
//! channel, and are unlocked or returned according to the acknowledgment,
//! error, or timeout that eventually answers each request.
//!
//! The crate models the whole persistent state of one bridge instance as the
//! [`state::Contract`] value and verifies every transition of its packet
//! lifecycle: lock and unlock initiation, acknowledgment and timeout
//! resolution with bounded retry escalation, the channel handshake, the
//! credit ledger, and the read-only queries.

pub mod datatypes;
pub mod error;
pub mod order;
pub mod state;
pub mod contract;
pub mod ibc;
pub mod queries;
pub mod laws;

pub use error::ContractError;
