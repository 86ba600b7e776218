//! A log-ingestion pipeline: syslog records are decoded from bytes into typed
//! events and rendered as JSON for a downstream sink.

pub mod codec;
pub mod event;
pub mod input;
pub mod output;
pub mod serialize;
pub mod time;

use vstd::prelude::*;
use vstd::string::StringExecFns;

verus! {

/// Failure of a pipeline, by the side it came from.
#[derive(Debug)]
pub enum PipeError<IE, OE> {
    Input(IE),
    Output(OE),
}

impl<IE, OE> PipeError<IE, OE> {
    /// What `description` gives.
    pub open spec fn description_spec(&self) -> Seq<char> {
        match self {
            PipeError::Input(_) => "Pipe input failed"@,
            PipeError::Output(_) => "Pipe output failed"@,
        }
    }

    /// The error for display: the description, a colon and a space, and the
    /// text of the error inside, which the caller hands in.
    pub fn to_text(&self, cause: &str) -> (text: String)
        ensures
            text@ == self.description_spec() + ": "@ + cause@,
    {
        let mut text = String::from_str(self.description());
        text.append(": ");
        text.append(cause);
        text
    }

    /// Short text that names the failing side.
    pub fn description(&self) -> (text: &'static str)
        ensures
            text@ == self.description_spec(),
    {
        match self {
            PipeError::Input(_) => "Pipe input failed",
            PipeError::Output(_) => "Pipe output failed",
        }
    }
}

} // verus!
