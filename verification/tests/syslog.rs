use logslash::codec::nom::IResult;
use logslash::codec::nom::ParserError;
use logslash::codec::syslog::frame::rfc5425_frame;
use logslash::codec::syslog::frame::syslog_rfc5424_in_newline_frame;
use logslash::codec::syslog::frame::syslog_rfc5424_in_rfc5425_frame;
use logslash::codec::syslog::grammar::syslog_rfc5424;
use logslash::codec::syslog::Facility;
use logslash::codec::syslog::Message;
use logslash::codec::syslog::Severity;
use logslash::codec::syslog::SyslogError;
use logslash::codec::syslog::SyslogEvent;

fn done(result: IResult<SyslogEvent, SyslogError>) -> (usize, SyslogEvent) {
    match result {
        IResult::Done(consumed, event) => (consumed, event),
        other => panic!("not done: {:?}", other),
    }
}

#[test]
fn newline_frame_plain_record() {
    let input = b"<165>1 2003-10-11T22:14:15.003Z mymachine.example.com evntslog - ID47 - foobar\n";
    let (consumed, event) = done(syslog_rfc5424_in_newline_frame(input));
    assert_eq!(consumed, input.len());
    assert_eq!(event.facility, Facility::Local4);
    assert_eq!(event.facility.code(), 20);
    assert_eq!(event.severity, Severity::Notice);
    assert_eq!(event.severity.code(), 5);
    assert_eq!(event.timestamp.to_rfc3339(), "2003-10-11T22:14:15.003+00:00");
    assert_eq!(event.timestamp.secs, 1065910455);
    assert_eq!(event.timestamp.nanos, 3_000_000);
    assert_eq!(event.timestamp.offset, 0);
    assert_eq!(event.hostname, "mymachine.example.com");
    assert_eq!(event.app_name, Some("evntslog".to_string()));
    assert_eq!(event.proc_id, None);
    assert_eq!(event.msg_id, Some("ID47".to_string()));
    assert_eq!(event.structured_data, None);
    assert_eq!(event.message, Some(Message::MaybeString(b"foobar".to_vec())));
}

#[test]
fn record_with_bom_payload_is_text() {
    let input = b"<165>1 2003-10-11T22:14:15.003Z mymachine.example.com evntslog - ID47 - \xEF\xBB\xBFfoo\nbar";
    let event = syslog_rfc5424(input).unwrap();
    assert_eq!(event.message, Some(Message::String("foo\nbar".to_string())));
}

#[test]
fn newline_frame_keeps_escape_without_bom() {
    let input = b"<165>1 2003-10-11T22:14:15.003Z mymachine.example.com evntslog - ID47 - foo#012bar\n";
    let (consumed, event) = done(syslog_rfc5424_in_newline_frame(input));
    assert_eq!(consumed, input.len());
    assert_eq!(event.message, Some(Message::MaybeString(b"foo#012bar".to_vec())));
}

#[test]
fn newline_frame_rewrites_escape_with_bom() {
    let input = b"<165>1 2003-10-11T22:14:15.003Z mymachine.example.com evntslog - ID47 - \xEF\xBB\xBFfoo#012bar\n";
    let (consumed, event) = done(syslog_rfc5424_in_newline_frame(input));
    assert_eq!(consumed, input.len());
    assert_eq!(event.message, Some(Message::String("foo\nbar".to_string())));
}

#[test]
fn rfc5425_frame_cuts_record_and_leaves_rest() {
    let input = b"79 <165>1 2003-10-11T22:14:15.003Z mymachine.example.com evntslog - ID47 - foo\nbarEOF";
    match rfc5425_frame(input) {
        IResult::Done(consumed, frame) => {
            assert_eq!(frame.len(), 79);
            assert!(frame.ends_with(b"foo\nbar"));
            assert_eq!(&input[consumed..], b"EOF");
            assert_eq!(consumed, 2 + 1 + 79);
        }
        other => panic!("not done: {:?}", other),
    }
    let (consumed, event) = done(syslog_rfc5424_in_rfc5425_frame(input));
    assert_eq!(consumed, 82);
    assert_eq!(event.message, Some(Message::MaybeString(b"foo\nbar".to_vec())));
}

#[test]
fn bad_priority_is_refused_as_priority() {
    let input = b"<16x5>1 2003-10-11T22:14:15.003Z mymachine.example.com evntslog - ID47 - foobar";
    let error = syslog_rfc5424(input).unwrap_err();
    assert_eq!(error, SyslogError::Priority);
    assert_eq!(error.code(), 1);
    assert_eq!(error.description(), "Bad syslog priority tag format");
    match syslog_rfc5424_in_newline_frame(b"<16x5>1 2003-10-11T22:14:15.003Z h a p m - x\n") {
        IResult::Error(ParserError::Custom(kind)) => assert_eq!(kind.code(), 1),
        other => panic!("not an error: {:?}", other),
    }
}
