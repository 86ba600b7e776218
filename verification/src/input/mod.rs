//! Sources of events.

pub mod syslog;
pub mod tcp;
