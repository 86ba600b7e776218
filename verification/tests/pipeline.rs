use logslash::codec::nom::DecodeError;
use logslash::codec::syslog::grammar::syslog_rfc5424;
use logslash::input::tcp::ConnectionAction;
use logslash::input::tcp::ConnectionEvent;
use logslash::input::tcp::ConnectionState;
use logslash::input::tcp::IoFailure;
use logslash::input::tcp::IoKind;
use logslash::input::tcp::TcpInputError;
use logslash::output::debug::append_bytes;
use logslash::output::debug::serialize_event;
use logslash::output::debug::write_header;
use logslash::output::debug::DebugOuputError;
use logslash::output::debug::DebugPort;
use logslash::output::debug::SyslogDebugPortEvent;
use logslash::output::write::Prepared;
use logslash::output::write::Scratch;
use logslash::serialize::JsonEventSerializer;
use logslash::serialize::JsonLogstashEventSerializer;
use logslash::time::Timestamp;
use logslash::PipeError;

fn port_event() -> SyslogDebugPortEvent {
    let mut event =
        syslog_rfc5424(b"<165>1 2003-10-11T22:14:15.003+01:00 host app - ID47 - \xEF\xBB\xBFfoo").unwrap();
    event.processed = Timestamp { secs: 1_700_000_000, nanos: 0, offset: 0 };
    SyslogDebugPortEvent(event)
}

#[test]
fn debug_line_has_header_payload_and_newline() {
    let event = port_event();
    let mut buf = Vec::new();
    serialize_event(&event, &mut buf, &JsonLogstashEventSerializer).unwrap();
    assert_eq!(
        String::from_utf8(buf).unwrap(),
        "ID47 host [2003-10-11T21:14:15.003+00:00] -- {\"@timestamp\":\"2003-10-11T21:14:15.003+00:00\",\
         \"@version\":\"1\",\"message\":\"foo\",\"type\":\"syslog\",\"tags\":[\"class:syslog\"],\
         \"@processed\":\"2023-11-14T22:13:20+00:00\",\"@id\":\"ID47\",\"logsource\":\"host\",\
         \"severity\":\"Notice\",\"facility\":\"local4\",\"program\":\"app\"}\n"
    );
}

#[test]
fn debug_line_is_appended_to_the_buffer() {
    let event = port_event();
    let mut buf = b"kept\n".to_vec();
    serialize_event(&event, &mut buf, &JsonEventSerializer).unwrap();
    let line = String::from_utf8(buf).unwrap();
    assert!(line.starts_with("kept\nID47 host [2003-10-11T21:14:15.003+00:00] -- {\"id\":\"ID47\","));
    assert!(line.ends_with("}\n"));
}

#[test]
fn debug_port_of_a_syslog_event() {
    let event = port_event();
    assert_eq!(DebugPort::id(&event), "ID47");
    assert_eq!(DebugPort::source(&event), "host");
    assert_eq!(
        DebugPort::timestamp(&event),
        Timestamp { secs: 1065906855, nanos: 3_000_000, offset: 0 }
    );
    let out = event.write_payload(b"x".to_vec(), &JsonEventSerializer).unwrap();
    assert!(out.starts_with(b"x{\"id\":\"ID47\""));
}

#[test]
fn header_and_bytes() {
    let mut out = b"<".to_vec();
    write_header(&mut out, "id", "src", "time");
    assert_eq!(out, b"<id src [time] -- ".to_vec());
    append_bytes(&mut out, b"tail");
    append_bytes(&mut out, b"");
    assert_eq!(out, b"<id src [time] -- tail".to_vec());
}

#[test]
fn debug_output_error_texts() {
    let error: DebugOuputError<u8> = DebugOuputError::Serialization(1);
    assert_eq!(error.description(), "Failed to serialize debug event");
    assert_eq!(error.to_text("bad"), "Failed to serialize debug event: bad");
}

#[test]
fn pipe_error_texts() {
    let input: PipeError<u8, u8> = PipeError::Input(1);
    let output: PipeError<u8, u8> = PipeError::Output(2);
    assert_eq!(input.description(), "Pipe input failed");
    assert_eq!(output.description(), "Pipe output failed");
    assert_eq!(input.to_text("closed"), "Pipe input failed: closed");
    assert_eq!(output.to_text("full"), "Pipe output failed: full");
}

#[test]
fn scratch_buffer_is_reused_and_cleared() {
    let mut scratch = Scratch::new();
    let mut buf = scratch.take();
    assert!(buf.is_empty());
    assert!(scratch.slot.is_none());
    buf.extend_from_slice(b"formatted");
    let formatted: Result<(), &str> = Ok(());
    match scratch.prepared(buf, formatted) {
        Prepared::Write(bytes) => {
            assert_eq!(bytes, b"formatted".to_vec());
            scratch.put_back(bytes);
        }
        Prepared::Drop(_) => panic!("dropped"),
    }
    assert_eq!(scratch.slot, Some(Vec::new()));
    let mut buf = scratch.take();
    buf.extend_from_slice(b"half");
    match scratch.prepared(buf, Err("broken")) {
        Prepared::Write(_) => panic!("written"),
        Prepared::Drop(reason) => assert_eq!(reason, "broken"),
    }
    assert_eq!(scratch.slot, Some(Vec::new()));
    assert!(scratch.take().is_empty());
    assert_eq!(logslash::output::write::CHANNEL_BOUND, 100);
    assert_eq!(logslash::output::write::SCRATCH_CAPACITY, 64);
    assert_eq!(logslash::input::tcp::CHANNEL_BOUND, 10);
}

#[test]
fn connection_reads_decodes_and_emits() {
    let state = ConnectionState::initial();
    assert_eq!(state, ConnectionState::Reading);
    let (state, action) = state.step(ConnectionEvent::Bytes);
    assert_eq!((state, action), (ConnectionState::Framed, ConnectionAction::Decode));
    let (state, action) = state.step(ConnectionEvent::Decoded);
    assert_eq!((state, action), (ConnectionState::Emitting, ConnectionAction::Send));
    let (state, action) = state.step(ConnectionEvent::Sent);
    assert_eq!((state, action), (ConnectionState::Reading, ConnectionAction::Read));
    let (state, _) = state.step(ConnectionEvent::Bytes);
    let (state, action) = state.step(ConnectionEvent::Incomplete);
    assert_eq!((state, action), (ConnectionState::Reading, ConnectionAction::Read));
    let (state, action) = state.step(ConnectionEvent::EndOfStream);
    assert_eq!((state, action), (ConnectionState::Closed, ConnectionAction::LogClosed));
}

#[test]
fn connection_closes_on_every_failure() {
    assert_eq!(
        ConnectionState::Reading.step(ConnectionEvent::ReadFailed),
        (ConnectionState::Closed, ConnectionAction::LogError)
    );
    assert_eq!(
        ConnectionState::Framed.step(ConnectionEvent::DecodeFailed),
        (ConnectionState::Closed, ConnectionAction::LogError)
    );
    assert_eq!(
        ConnectionState::Emitting.step(ConnectionEvent::SendFailed),
        (ConnectionState::Closed, ConnectionAction::LogError)
    );
    let events = [
        ConnectionEvent::Bytes,
        ConnectionEvent::EndOfStream,
        ConnectionEvent::ReadFailed,
        ConnectionEvent::Decoded,
        ConnectionEvent::Incomplete,
        ConnectionEvent::DecodeFailed,
        ConnectionEvent::Sent,
        ConnectionEvent::SendFailed,
    ];
    for event in events.iter() {
        assert_eq!(
            ConnectionState::Closed.step(*event),
            (ConnectionState::Closed, ConnectionAction::Ignore)
        );
    }
    assert_eq!(
        ConnectionState::Reading.step(ConnectionEvent::Sent),
        (ConnectionState::Reading, ConnectionAction::Ignore)
    );
    assert_eq!(
        ConnectionState::Emitting.step(ConnectionEvent::Bytes),
        (ConnectionState::Emitting, ConnectionAction::Ignore)
    );
}

#[test]
fn tcp_input_error_texts() {
    let error = TcpInputError::SendError("Event(1)".to_string());
    assert_eq!(error.description(), "Failed to push processed input message down the pipeline");
    assert_eq!(
        error.to_text(),
        "Failed to push processed input message down the pipeline: Event(1)"
    );
    let error = TcpInputError::IoError(IoFailure::from_decode(DecodeError::InvalidInput(
        "Bad syslog priority tag format",
    )));
    assert_eq!(error.description(), "Failed to parse input");
    assert_eq!(error.to_text(), "Failed to parse input: Bad syslog priority tag format");
    let error = TcpInputError::IoError(IoFailure::from_decode(DecodeError::InvalidData));
    assert_eq!(error.description(), "Failed to apply parser");
    assert_eq!(error.to_text(), "Failed to apply parser: unexpected parser error");
    let error = TcpInputError::IoError(IoFailure { kind: IoKind::Other, reason: None });
    assert_eq!(error.description(), "Input error");
    assert_eq!(error.to_text(), "Input error");
    let error = TcpInputError::IoError(IoFailure {
        kind: IoKind::Other,
        reason: Some("connection reset".to_string()),
    });
    assert_eq!(error.to_text(), "Input error: connection reset");
}
