//! A verified on-chain result store for content-analysis verdicts.
//!
//! The store keeps one detection record per content identifier, a
//! monotone counter of all write calls, and a (currently unconsulted)
//! list of agent identities.  Every operation is specified against a
//! mathematical model: a `Map` from content identifier to record view,
//! plus the counter.  Host-environment values (the timestamp and the
//! caller identity stamped into each record) enter as plain arguments,
//! so the logic is verified for every value the environment may supply.

pub mod counting;
pub mod laws;
pub mod model;
pub mod record;
pub mod request;
pub mod store;
pub mod store_map;
