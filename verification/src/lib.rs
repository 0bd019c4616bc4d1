//! A verified registry of usage licenses for digital assets ("beats"),
//! each named by a 32-byte content hash.
//!
//! The registry creates and revokes license records while enforcing the
//! exclusivity rule: at most one non-revoked *exclusive* license exists for a
//! given asset at any time, however many non-exclusive licenses exist beside
//! it. A per-asset guard record turns that set-wide rule into a single
//! check-and-set, and the registry's invariant ties the guard's flag to the
//! actual count of non-revoked exclusive licenses.
//!
//! Caller identity, durable storage, and event delivery are the hosting
//! environment's concern: the registry takes a verified caller identity as a
//! plain value, keeps its records as plain values, and returns the event
//! payload of each successful operation to the caller for emission.

pub mod guard;
pub mod laws;
pub mod license;
pub mod record;
pub mod registry;
pub mod types;
