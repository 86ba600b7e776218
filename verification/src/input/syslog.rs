//! Syslog over TCP: records that each end in a newline.

pub use crate::codec::syslog::SyslogEvent;

use crate::codec::nom::NomCodec;
use crate::codec::syslog::frame::Rfc5424InNewlineFrame;
use crate::codec::syslog::SyslogCodec;
use vstd::prelude::*;

verus! {

/// The name under which the syslog source logs.
pub const INPUT_NAME: &'static str = "syslog";

/// The decoder that a syslog connection reads with.
pub fn syslog_codec() -> (codec: NomCodec<Rfc5424InNewlineFrame>)
    ensures
        codec.parser == Rfc5424InNewlineFrame,
{
    SyslogCodec::rfc5424_in_newline_frame()
}

} // verus!
