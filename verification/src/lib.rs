//! A ledger-resident protocol for creating "channels": a pair of linked
//! counters (one non-reproducible ownership unit, one open-ended subscription
//! unit) together with descriptive metadata for each and a durable attribution
//! record binding the two counters to their creator.
//!
//! The protocol enforces name uniqueness purely through derived addressing:
//! storage locations are computed deterministically from a namespace tag and
//! key bytes, and a "create if absent" store primitive makes the first write
//! win. Ownership of a channel is proved by holding exactly one unit of its
//! ownership counter; that balance is the sole credential gating later
//! metadata updates.

pub mod attribution;
pub mod channel;
pub mod counter;
pub mod errors;
pub mod identity;
pub mod laws;
pub mod metadata;
pub mod resolve;
pub mod store;
