//! Decoding of framed records from a byte buffer.

pub mod nom;
pub mod parse;
pub mod scan;
pub mod syslog;
