//! Ticket and health aggregation for a desktop IT-management agent.
//!
//! The library works on JSON documents held as [`json::JsonValue`]; reading and
//! writing the files is left to the caller.
pub mod clock;
pub mod json;
pub mod paths;
pub mod settings;
pub mod stats;
pub mod tickets;
pub mod health;
