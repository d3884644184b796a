//! Verified core of a kernel-assisted network time-synchronisation and
//! latency measurement tool.
pub mod bytes;
pub mod protocol;
pub mod events;
pub mod stats;
pub mod clock;
pub mod measurement;
pub mod session;
pub mod client;
pub mod probe;
