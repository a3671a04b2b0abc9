//! Forwards a user's liked and watched items from a video platform to a chat
//! exactly once: the session lifecycle (QR handshake, liveness probe) and the
//! synchronization engine that merges both activity streams with the ledger.

pub mod activity;
pub mod ledger;
pub mod session;
pub mod sync;
pub mod types;
