//! Inbound-activity processing core of a federated content platform.
//!
//! The crate receives activity envelopes that a transport layer has already
//! parsed, checks that their claimed origin is self-consistent, resolves the
//! remote objects they reference (bounded by a per-activity fetch budget and
//! de-duplicated through an in-flight registry), applies the resulting state
//! change to a local object store exactly once, and reports the event that a
//! broadcaster should publish only after the change is committed.

pub mod errors;
pub mod ids;
pub mod store;
pub mod registry;
pub mod resolver;
pub mod activity;
pub mod verification;
pub mod handlers;
pub mod pipeline;
pub mod laws;
pub mod images;
pub mod settings;
