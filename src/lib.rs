//! Periodic host metrics published as one retained MQTT message.
//!
//! The library holds the verified logic: the probe snapshot a collection
//! cycle produces, the flat payload it becomes, the JSON envelope that is
//! published, the connection settings and topic of the publisher, and the
//! decisions of the scheduler and collector stages.

pub mod decimal;
pub mod payload;
pub mod probes;
pub mod client;
pub mod pipeline;
