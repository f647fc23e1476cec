//! Queries over the event log that a Soroban host records for the bounty
//! escrow contract: whether an event with a given leading topic was published,
//! and what data the first such event carried.

pub mod event_log;
pub mod host;

pub use event_log::{find_data, has_topic};
pub use host::HostEvents;
