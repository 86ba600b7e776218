//! The life of one TCP connection that feeds decoded events into a channel,
//! and the errors that end it.

use crate::codec::nom::DecodeError;
use vstd::prelude::*;
use vstd::string::StringExecFns;

verus! {

/// How many decoded events may wait in the channel behind the connections.
pub const CHANNEL_BOUND: usize = 10;

/// Where a connection stands.
#[derive(Clone, Copy, Debug, PartialEq, Eq, Structural)]
pub enum ConnectionState {
    /// Waiting for more bytes.
    Reading,
    /// Bytes are there; the decoder runs on them.
    Framed,
    /// An event was decoded and waits for room in the channel.
    Emitting,
    /// The remote side hung up, or an error ended the connection.
    Closed,
}

/// What happened on a connection.
#[derive(Clone, Copy, Debug, PartialEq, Eq, Structural)]
pub enum ConnectionEvent {
    /// More bytes arrived.
    Bytes,
    /// The remote side closed the stream.
    EndOfStream,
    /// Reading failed.
    ReadFailed,
    /// The decoder gave an event.
    Decoded,
    /// The decoder wants more bytes.
    Incomplete,
    /// The decoder refused the bytes.
    DecodeFailed,
    /// The channel took the event.
    Sent,
    /// The channel is gone.
    SendFailed,
}

/// What the driver of a connection does next.
#[derive(Clone, Copy, Debug, PartialEq, Eq, Structural)]
pub enum ConnectionAction {
    /// Wait for bytes.
    Read,
    /// Run the decoder.
    Decode,
    /// Put the decoded event into the channel.
    Send,
    /// Log the error with the connection's identity and end the connection.
    LogError,
    /// Log that the remote side closed, and end the connection.
    LogClosed,
    /// Nothing.
    Ignore,
}

impl ConnectionEvent {
    /// The event reports a failure.
    pub open spec fn is_failure(self) -> bool {
        self is ReadFailed || self is DecodeFailed || self is SendFailed
    }
}

/// The state that an event leads to, and what to do on the way. A
/// connection reads, decodes, emits, and reads again; a failure, or the end
/// of the stream, closes it. An event that the state does not wait for
/// changes nothing.
pub open spec fn next(state: ConnectionState, event: ConnectionEvent) -> (
    ConnectionState,
    ConnectionAction,
) {
    match (state, event) {
        (ConnectionState::Reading, ConnectionEvent::Bytes) => (
            ConnectionState::Framed,
            ConnectionAction::Decode,
        ),
        (ConnectionState::Reading, ConnectionEvent::EndOfStream) => (
            ConnectionState::Closed,
            ConnectionAction::LogClosed,
        ),
        (ConnectionState::Reading, ConnectionEvent::ReadFailed) => (
            ConnectionState::Closed,
            ConnectionAction::LogError,
        ),
        (ConnectionState::Framed, ConnectionEvent::Decoded) => (
            ConnectionState::Emitting,
            ConnectionAction::Send,
        ),
        (ConnectionState::Framed, ConnectionEvent::Incomplete) => (
            ConnectionState::Reading,
            ConnectionAction::Read,
        ),
        (ConnectionState::Framed, ConnectionEvent::DecodeFailed) => (
            ConnectionState::Closed,
            ConnectionAction::LogError,
        ),
        (ConnectionState::Emitting, ConnectionEvent::Sent) => (
            ConnectionState::Reading,
            ConnectionAction::Read,
        ),
        (ConnectionState::Emitting, ConnectionEvent::SendFailed) => (
            ConnectionState::Closed,
            ConnectionAction::LogError,
        ),
        _ => (state, ConnectionAction::Ignore),
    }
}

/// The events that a state waits for.
pub open spec fn awaits(state: ConnectionState, event: ConnectionEvent) -> bool {
    match state {
        ConnectionState::Reading => event is Bytes || event is EndOfStream || event is ReadFailed,
        ConnectionState::Framed => event is Decoded || event is Incomplete || event
            is DecodeFailed,
        ConnectionState::Emitting => event is Sent || event is SendFailed,
        ConnectionState::Closed => false,
    }
}

impl ConnectionState {
    /// The state of a connection that was just accepted.
    pub fn initial() -> (state: ConnectionState)
        ensures
            state == ConnectionState::Reading,
    {
        ConnectionState::Reading
    }

    /// Takes an event: gives the next state and what to do.
    pub fn step(self, event: ConnectionEvent) -> (r: (ConnectionState, ConnectionAction))
        ensures
            r == next(self, event),
    {
        match self {
            ConnectionState::Reading => match event {
                ConnectionEvent::Bytes => (ConnectionState::Framed, ConnectionAction::Decode),
                ConnectionEvent::EndOfStream => (
                    ConnectionState::Closed,
                    ConnectionAction::LogClosed,
                ),
                ConnectionEvent::ReadFailed => (ConnectionState::Closed, ConnectionAction::LogError),
                _ => (self, ConnectionAction::Ignore),
            },
            ConnectionState::Framed => match event {
                ConnectionEvent::Decoded => (ConnectionState::Emitting, ConnectionAction::Send),
                ConnectionEvent::Incomplete => (ConnectionState::Reading, ConnectionAction::Read),
                ConnectionEvent::DecodeFailed => (
                    ConnectionState::Closed,
                    ConnectionAction::LogError,
                ),
                _ => (self, ConnectionAction::Ignore),
            },
            ConnectionState::Emitting => match event {
                ConnectionEvent::Sent => (ConnectionState::Reading, ConnectionAction::Read),
                ConnectionEvent::SendFailed => (ConnectionState::Closed, ConnectionAction::LogError),
                _ => (self, ConnectionAction::Ignore),
            },
            ConnectionState::Closed => (self, ConnectionAction::Ignore),
        }
    }
}

/// A closed connection stays closed; every failure that a state waits for
/// closes the connection and is logged; and a connection that decodes and
/// emits an event without failure is back to reading.
pub proof fn lemma_connection_life(state: ConnectionState, event: ConnectionEvent)
    ensures
        state is Closed ==> next(state, event) == (state, ConnectionAction::Ignore),
        !awaits(state, event) ==> next(state, event) == (state, ConnectionAction::Ignore),
        awaits(state, event) && event.is_failure() ==> next(state, event) == (
            ConnectionState::Closed,
            ConnectionAction::LogError,
        ),
        next(
            next(
                next(ConnectionState::Reading, ConnectionEvent::Bytes).0,
                ConnectionEvent::Decoded,
            ).0,
            ConnectionEvent::Sent,
        ).0 == ConnectionState::Reading,
{
}

/// The kind of an input failure.
#[derive(Clone, Copy, Debug, PartialEq, Eq, Structural)]
pub enum IoKind {
    InvalidInput,
    InvalidData,
    Other,
}

/// A failure to read or to decode, with the reason where one is known.
#[derive(Debug)]
pub struct IoFailure {
    pub kind: IoKind,
    pub reason: Option<String>,
}

/// Why a connection ended: the channel refused an event, here kept as the
/// text that shows it, or the input failed.
#[derive(Debug)]
pub enum TcpInputError {
    SendError(String),
    IoError(IoFailure),
}

impl IoFailure {
    /// The failure that a refusal of the decoder is.
    pub fn from_decode(error: DecodeError) -> (failure: IoFailure)
        ensures
            error is InvalidInput ==> failure.kind == IoKind::InvalidInput,
            error is InvalidData ==> failure.kind == IoKind::InvalidData,
            failure.reason matches Some(reason) && (error matches DecodeError::InvalidInput(text)
                ==> reason@ == text@) && (error is InvalidData ==> reason@
                == "unexpected parser error"@),
    {
        match error {
            DecodeError::InvalidInput(text) => IoFailure {
                kind: IoKind::InvalidInput,
                reason: Some(String::from_str(text)),
            },
            DecodeError::InvalidData => IoFailure {
                kind: IoKind::InvalidData,
                reason: Some(String::from_str("unexpected parser error")),
            },
        }
    }
}

impl TcpInputError {
    /// What `description` gives.
    pub open spec fn description_spec(&self) -> Seq<char> {
        match self {
            TcpInputError::SendError(_) =>
                "Failed to push processed input message down the pipeline"@,
            TcpInputError::IoError(failure) => match failure.kind {
                IoKind::InvalidInput => "Failed to parse input"@,
                IoKind::InvalidData => "Failed to apply parser"@,
                IoKind::Other => "Input error"@,
            },
        }
    }

    /// What `to_text` gives: the description, and behind a colon and a
    /// space what is known of the cause.
    pub open spec fn text_spec(&self) -> Seq<char> {
        match self {
            TcpInputError::SendError(item) => self.description_spec() + ": "@ + item@,
            TcpInputError::IoError(failure) => match failure.reason {
                Some(reason) => self.description_spec() + ": "@ + reason@,
                None => self.description_spec(),
            },
        }
    }

    /// Short text that says what failed.
    pub fn description(&self) -> (text: &'static str)
        ensures
            text@ == self.description_spec(),
    {
        match self {
            TcpInputError::SendError(_) =>
                "Failed to push processed input message down the pipeline",
            TcpInputError::IoError(failure) => match failure.kind {
                IoKind::InvalidInput => "Failed to parse input",
                IoKind::InvalidData => "Failed to apply parser",
                IoKind::Other => "Input error",
            },
        }
    }

    /// The error for display.
    pub fn to_text(&self) -> (text: String)
        ensures
            text@ == self.text_spec(),
    {
        let mut text = String::from_str(self.description());
        match self {
            TcpInputError::SendError(item) => {
                text.append(": ");
                text.append(item.as_str());
            },
            TcpInputError::IoError(failure) => match &failure.reason {
                Some(reason) => {
                    text.append(": ");
                    text.append(reason.as_str());
                },
                None => {},
            },
        }
        text
    }
}

} // verus!
