//! Token quotas of the AI proxy: the reservation ticket, and the decisions
//! of the reserve and reconcile calls, which the service runs against the
//! shared reservation store and the quota counter.
pub mod wire;
pub mod service;
pub mod laws;
