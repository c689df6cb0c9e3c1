//! Host-side reconciliation of service descriptors and relaying of server
//! logs to connected observers.
pub mod store;
pub mod compose;
pub mod relay;
pub mod engine;
pub mod deploy;
pub mod status;
