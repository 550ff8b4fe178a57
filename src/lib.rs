//! Coordination hub for multi-party threshold protocols: party signup,
//! per-round relay of opaque commitments, and group/session bookkeeping.

pub mod groups;
pub mod keys;
pub mod messages;
pub mod phase;
pub mod registry;
mod run_id;
pub mod server;
pub mod signup;
pub mod store;
pub mod types;
