//! Sinks for events: the debug port and the writer behind it.

pub mod debug;
pub mod write;
