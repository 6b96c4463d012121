//! Telemetry pipeline: a registry of named sample channels, an ordered
//! event bus between an acquisition worker and its consumer, the worker's
//! lifecycle decisions, and the ingestion step that applies events.

pub mod bus;
pub mod console;
pub mod endpoint;
pub mod registry;
pub mod server;
