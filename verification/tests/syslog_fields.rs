use logslash::codec::nom::IResult;
use logslash::codec::nom::ParserError;
use logslash::codec::syslog::frame::newline_frame;
use logslash::codec::syslog::frame::rfc5425_frame;
use logslash::codec::syslog::frame::syslog_rfc5424_in_newline_frame;
use logslash::codec::syslog::frame::syslog_rfc5424_in_rfc5425_frame;
use logslash::codec::syslog::grammar::is_nil;
use logslash::codec::syslog::rehydrate::rehydrate;
use logslash::codec::syslog::rehydrate::rehydrate_message;
use logslash::codec::syslog::grammar::optional;
use logslash::codec::syslog::grammar::parse_field;
use logslash::codec::syslog::grammar::parse_message;
use logslash::codec::syslog::grammar::parse_payload;
use logslash::codec::syslog::grammar::parse_priority;
use logslash::codec::syslog::grammar::parse_timestamp;
use logslash::codec::syslog::grammar::parse_token;
use logslash::codec::syslog::grammar::syslog_rfc5424;
use logslash::codec::syslog::sdata::parse_element;
use logslash::codec::syslog::sdata::parse_elements;
use logslash::codec::syslog::sdata::parse_param;
use logslash::codec::syslog::sdata::parse_params;
use logslash::codec::syslog::sdata::parse_structured_data;
use logslash::codec::syslog::sdata::parse_value;
use logslash::codec::syslog::sdata::scan_name;
use logslash::codec::syslog::sdata::upsert;
use logslash::codec::syslog::sdata::StructuredElement;
use logslash::codec::syslog::Facility;
use logslash::codec::syslog::Message;
use logslash::codec::syslog::Severity;
use logslash::codec::syslog::SyslogError;
use logslash::time::Timestamp;

const HEADER: &str = "<165>1 2003-10-11T22:14:15.003Z mymachine.example.com evntslog - ID47 ";

fn record(tail: &[u8]) -> Vec<u8> {
    let mut input = HEADER.as_bytes().to_vec();
    input.extend_from_slice(tail);
    input
}

fn pair(name: &str, value: &str) -> (String, String) {
    (name.to_string(), value.to_string())
}

#[test]
fn facility_and_severity_come_from_the_priority() {
    for priority in 0u8..=191 {
        let input = format!("<{}>1 2003-10-11T22:14:15.003Z host app proc msg -", priority);
        let event = syslog_rfc5424(input.as_bytes()).unwrap();
        assert_eq!(event.facility.code(), priority / 8);
        assert_eq!(event.severity.code(), priority % 8);
        assert!(event.facility.code() <= 23);
        assert!(event.severity.code() <= 7);
    }
}

#[test]
fn priority_above_191_is_refused() {
    for priority in [192u32, 199, 255, 256, 1000, 99999] {
        let input = format!("<{}>1 2003-10-11T22:14:15.003Z host app proc msg -", priority);
        assert_eq!(syslog_rfc5424(input.as_bytes()), Err(SyslogError::Priority));
    }
}

#[test]
fn priority_tag_must_be_whole() {
    let timestamp = "2003-10-11T22:14:15.003Z";
    let cases = [
        "".to_string(),
        "<".to_string(),
        "<1".to_string(),
        "<1>".to_string(),
        format!("165>1 {} h a p m -", timestamp),
        format!("<>1 {} h a p m -", timestamp),
        format!("<165>2 {} h a p m -", timestamp),
        format!("<165> 1 {} h a p m -", timestamp),
        format!("<+16>1 {} h a p m -", timestamp),
        format!("<-1>1 {} h a p m -", timestamp),
    ];
    for case in cases.iter() {
        assert_eq!(syslog_rfc5424(case.as_bytes()), Err(SyslogError::Priority), "{:?}", case);
    }
    assert_eq!(parse_priority(b"<165>1 rest"), Some((165, 6)));
    assert_eq!(parse_priority(b"<0>1"), Some((0, 4)));
    assert_eq!(parse_priority(b"<007>1"), Some((7, 6)));
}

#[test]
fn each_header_field_has_its_error() {
    let cases: [(&[u8], SyslogError); 14] = [
        (b"<165>1", SyslogError::Timestamp),
        (b"<165>1x2003-10-11T22:14:15.003Z h a p m -", SyslogError::Timestamp),
        (b"<165>1 2003-10-11T22:14:15.003Z", SyslogError::Timestamp),
        (b"<165>1 yesterday h a p m -", SyslogError::Timestamp),
        (b"<165>1  2003-10-11T22:14:15.003Z h a p m -", SyslogError::Timestamp),
        (b"<165>1 2003-10-11T22:14:15.003Z ", SyslogError::Hostname),
        (b"<165>1 2003-10-11T22:14:15.003Z host", SyslogError::Hostname),
        (b"<165>1 2003-10-11T22:14:15.003Z h\xffst a p m -", SyslogError::Hostname),
        (b"<165>1 2003-10-11T22:14:15.003Z host ", SyslogError::AppName),
        (b"<165>1 2003-10-11T22:14:15.003Z host  p m -", SyslogError::AppName),
        (b"<165>1 2003-10-11T22:14:15.003Z host app proc", SyslogError::ProcId),
        (b"<165>1 2003-10-11T22:14:15.003Z host app proc ", SyslogError::MsgId),
        (b"<165>1 2003-10-11T22:14:15.003Z host app proc msg\xff -", SyslogError::MsgId),
        (b"<165>1 2003-10-11T22:14:15.003Z host app proc msg ", SyslogError::StructuredDataElement),
    ];
    for (input, kind) in cases.iter() {
        assert_eq!(syslog_rfc5424(input), Err(*kind), "{:?}", String::from_utf8_lossy(input));
    }
}

#[test]
fn error_codes_and_descriptions() {
    let kinds = [
        (SyslogError::Priority, 1, "Bad syslog priority tag format"),
        (SyslogError::Timestamp, 2, "Bad syslog timestamp format"),
        (SyslogError::Hostname, 3, "Bad syslog hostname format"),
        (SyslogError::AppName, 4, "Bad syslog application name format"),
        (SyslogError::ProcId, 5, "Bad syslog process ID format"),
        (SyslogError::MsgId, 6, "Bad syslog message ID format"),
        (SyslogError::StructuredDataElement, 11, "Bad syslog structured data element format"),
        (SyslogError::StructuredDataParam, 12, "Bad syslog structured data parameter format"),
        (SyslogError::PayloadEncoding, 20, "Bad syslog message payload encoding"),
        (SyslogError::FrameLength, 30, "Bad syslog frame length format"),
    ];
    for (kind, code, description) in kinds.iter() {
        assert_eq!(kind.code(), *code);
        assert_eq!(kind.description(), *description);
        assert_eq!(SyslogError::from_code(*code), Some(*kind));
    }
    assert_eq!(SyslogError::from_code(0), None);
    assert_eq!(SyslogError::from_code(7), None);
    assert_eq!(SyslogError::from_code(21), None);
}

#[test]
fn hostname_dash_is_rejected() {
    let input = b"<165>1 2003-10-11T22:14:15.003Z - evntslog - ID47 - foobar";
    assert_eq!(syslog_rfc5424(input), Err(SyslogError::Hostname));
    let input = b"<165>1 2003-10-11T22:14:15.003Z -- evntslog - ID47 - foobar";
    assert_eq!(syslog_rfc5424(input).unwrap().hostname, "--");
}

#[test]
fn dash_fields_decode_to_absent() {
    let event = syslog_rfc5424(b"<165>1 2003-10-11T22:14:15.003Z host - - - -").unwrap();
    assert_eq!(event.app_name, None);
    assert_eq!(event.proc_id, None);
    assert_eq!(event.msg_id, None);
    assert_eq!(event.structured_data, None);
    assert_eq!(event.message, None);
    let event = syslog_rfc5424(b"<165>1 2003-10-11T22:14:15.003Z host a-b -1 -- -").unwrap();
    assert_eq!(event.app_name, Some("a-b".to_string()));
    assert_eq!(event.proc_id, Some("-1".to_string()));
    assert_eq!(event.msg_id, Some("--".to_string()));
    assert!(is_nil("-"));
    assert!(!is_nil(""));
    assert!(!is_nil("--"));
    assert_eq!(optional("-"), None);
    assert_eq!(optional("x"), Some("x".to_string()));
}

#[test]
fn absent_message_is_none() {
    let event = syslog_rfc5424(&record(b"-")).unwrap();
    assert_eq!(event.message, None);
    let event = syslog_rfc5424(&record(b"[a]")).unwrap();
    assert_eq!(event.message, None);
    assert_eq!(parse_message(b"abc", 3), Ok(None));
}

#[test]
fn empty_payload_is_a_message() {
    let event = syslog_rfc5424(&record(b"- ")).unwrap();
    assert_eq!(event.message, Some(Message::MaybeString(Vec::new())));
    let event = syslog_rfc5424(&record(b"- \xEF\xBB\xBF")).unwrap();
    assert_eq!(event.message, Some(Message::String(String::new())));
}

#[test]
fn bom_with_bad_utf8_is_refused_for_encoding() {
    let error = syslog_rfc5424(&record(b"- \xEF\xBB\xBFfoo\xffbar")).unwrap_err();
    assert_eq!(error, SyslogError::PayloadEncoding);
    assert_eq!(error.code(), 20);
    assert_eq!(parse_payload(b"\xEF\xBB\xBF\xc3"), Err(SyslogError::PayloadEncoding));
}

#[test]
fn bad_utf8_without_bom_is_kept_as_bytes() {
    let event = syslog_rfc5424(&record(b"- foo\xffbar")).unwrap();
    assert_eq!(event.message, Some(Message::MaybeString(b"foo\xffbar".to_vec())));
    assert_eq!(parse_payload(b"\xEF\xBBfoo"), Ok(Message::MaybeString(b"\xEF\xBBfoo".to_vec())));
    assert_eq!(parse_payload(b"plain"), Ok(Message::MaybeString(b"plain".to_vec())));
    assert_eq!(parse_payload(b"\xEF\xBB\xBFtext"), Ok(Message::String("text".to_string())));
}

#[test]
fn payload_without_bom_is_never_text() {
    let event = syslog_rfc5424(&record(b"- valid utf8 \xc5\x82")).unwrap();
    assert_eq!(event.message, Some(Message::MaybeString(b"valid utf8 \xc5\x82".to_vec())));
}

#[test]
fn payload_keeps_spaces_and_brackets() {
    let event = syslog_rfc5424(&record(b"-  two  spaces [x] ")).unwrap();
    assert_eq!(event.message, Some(Message::MaybeString(b" two  spaces [x] ".to_vec())));
}

#[test]
fn structured_data_elements_and_params() {
    let tail = br#"[exampleSDID@32473 iut="3" eventSource="Application" eventID="1011"][examplePriority@32473 class="high"] foo"#;
    let event = syslog_rfc5424(&record(tail)).unwrap();
    let elements = event.structured_data.unwrap();
    assert_eq!(elements.len(), 2);
    assert_eq!(elements[0].id, "exampleSDID@32473");
    assert_eq!(
        elements[0].params,
        vec![pair("iut", "3"), pair("eventSource", "Application"), pair("eventID", "1011")]
    );
    assert_eq!(elements[0].param("eventSource"), Some(&"Application".to_string()));
    assert_eq!(elements[0].param("missing"), None);
    assert_eq!(elements[1].id, "examplePriority@32473");
    assert_eq!(elements[1].params, vec![pair("class", "high")]);
    assert_eq!(event.message, Some(Message::MaybeString(b"foo".to_vec())));
}

#[test]
fn structured_data_element_without_params() {
    let event = syslog_rfc5424(&record(b"[only]")).unwrap();
    assert_eq!(
        event.structured_data,
        Some(vec![StructuredElement { id: "only".to_string(), params: Vec::new() }])
    );
}

#[test]
fn param_values_decode_escapes() {
    let tail = br#"[id a="q\"q" b="b\\b" c="c\]c" d="\\\"\]"]"#;
    let event = syslog_rfc5424(&record(tail)).unwrap();
    let elements = event.structured_data.unwrap();
    assert_eq!(
        elements[0].params,
        vec![pair("a", "q\"q"), pair("b", "b\\b"), pair("c", "c]c"), pair("d", "\\\"]")]
    );
    assert_eq!(parse_value(br#"a\"b\\c\]d" rest"#, 0), Some((b"a\"b\\c]d".to_vec(), 11)));
    assert_eq!(parse_value(br#"""#, 0), Some((Vec::new(), 1)));
}

#[test]
fn param_value_refuses_bad_escapes() {
    assert_eq!(parse_value(br#"a\nb""#, 0), None);
    assert_eq!(parse_value(br#"a]b""#, 0), None);
    assert_eq!(parse_value(br#"never closed"#, 0), None);
    assert_eq!(parse_value(b"ends in \\", 0), None);
    let tail = br#"[id a="x\ny"]"#;
    assert_eq!(syslog_rfc5424(&record(tail)), Err(SyslogError::StructuredDataParam));
}

#[test]
fn duplicate_param_names_last_wins() {
    let tail = br#"[id a="1" b="2" a="3"]"#;
    let event = syslog_rfc5424(&record(tail)).unwrap();
    let elements = event.structured_data.unwrap();
    assert_eq!(elements[0].params, vec![pair("a", "3"), pair("b", "2")]);
    assert_eq!(elements[0].param("a"), Some(&"3".to_string()));
    let mut params = vec![pair("x", "1")];
    upsert(&mut params, "y".to_string(), "2".to_string());
    upsert(&mut params, "x".to_string(), "3".to_string());
    assert_eq!(params, vec![pair("x", "3"), pair("y", "2")]);
}

#[test]
fn structured_data_errors() {
    let element: [&[u8]; 8] = [
        b"x",
        b"[",
        b"[]",
        b"[ a=\"1\"]",
        b"[id",
        b"[id a=\"1\"",
        b"[id=x]",
        b"[i\xffd]",
    ];
    for tail in element.iter() {
        assert_eq!(
            syslog_rfc5424(&record(tail)),
            Err(SyslogError::StructuredDataElement),
            "{:?}",
            String::from_utf8_lossy(tail)
        );
    }
    let param: [&[u8]; 8] = [
        b"[id ]",
        b"[id a]",
        b"[id a=]",
        b"[id a=1]",
        b"[id a=\"1]",
        b"[id =\"1\"]",
        b"[id a=\"\xff\"]",
        b"[id a\xff=\"1\"]",
    ];
    for tail in param.iter() {
        assert_eq!(
            syslog_rfc5424(&record(tail)),
            Err(SyslogError::StructuredDataParam),
            "{:?}",
            String::from_utf8_lossy(tail)
        );
    }
    assert_eq!(syslog_rfc5424(&record(b"-x")), Err(SyslogError::StructuredDataElement));
    assert_eq!(syslog_rfc5424(&record(b"[a]x")), Err(SyslogError::StructuredDataElement));
    assert_eq!(syslog_rfc5424(&record(b"[a][")), Err(SyslogError::StructuredDataElement));
}

#[test]
fn structured_data_parsers_give_positions() {
    assert_eq!(scan_name(b"name=x", 0), 4);
    assert_eq!(scan_name(b"name", 1), 4);
    assert_eq!(parse_param(br#"k="v" rest"#, 0), Some((pair("k", "v"), 5)));
    assert_eq!(parse_params(br#" k="v"]rest"#, 0), Ok((vec![pair("k", "v")], 7)));
    assert_eq!(parse_params(b"]", 0), Ok((Vec::new(), 1)));
    let (element, end) = parse_element(br#"[id k="v"]rest"#, 0).unwrap();
    assert_eq!(element, StructuredElement { id: "id".to_string(), params: vec![pair("k", "v")] });
    assert_eq!(end, 10);
    let (elements, end) = parse_elements(b"[a][b] x", 0).unwrap();
    assert_eq!(elements.len(), 2);
    assert_eq!(end, 6);
    assert_eq!(parse_structured_data(b"- x", 0), Ok((None, 1)));
    assert_eq!(parse_structured_data(b"", 0), Err(SyslogError::StructuredDataElement));
}

#[test]
fn header_parsers_give_positions() {
    assert_eq!(parse_token(b"ab cd", 0), Some((&b"ab"[..], 3)));
    assert_eq!(parse_token(b"ab cd", 3), None);
    assert_eq!(parse_token(b" ab", 0), None);
    assert_eq!(parse_field(b"ab cd", 0), Some(("ab", 3)));
    assert_eq!(parse_field(b"a\xff cd", 0), None);
    assert_eq!(
        parse_timestamp(b"> 2003-10-11T22:14:15.003Z host", 1),
        Some((Timestamp { secs: 1065910455, nanos: 3_000_000, offset: 0 }, 27))
    );
    assert_eq!(parse_timestamp(b">2003-10-11T22:14:15.003Z host", 1), None);
}

#[test]
fn record_keeps_the_offset_of_its_timestamp() {
    let event =
        syslog_rfc5424(b"<34>1 2003-08-24T05:14:15.000003-07:00 192.0.2.1 myproc 8710 - -").unwrap();
    assert_eq!(event.facility, Facility::Security);
    assert_eq!(event.severity, Severity::Critical);
    assert_eq!(event.timestamp.offset, -7 * 3600);
    assert_eq!(event.timestamp.nanos, 3_000);
    assert_eq!(event.timestamp.to_rfc3339(), "2003-08-24T05:14:15.000003-07:00");
    assert_eq!(event.proc_id, Some("8710".to_string()));
    assert_eq!(event.processed.offset, 0);
}

#[test]
fn parsing_twice_gives_the_same_record() {
    let input = record(br#"[a b="c"] \xEF\xBB\xBFtext"#);
    let mut first = syslog_rfc5424(&input).unwrap();
    let second = syslog_rfc5424(&input).unwrap();
    first.processed = second.processed;
    assert_eq!(first, second);
}

#[test]
fn newline_frame_takes_record_and_newline() {
    let mut input = b"<165>1 2003-10-11T22:14:15.003Z host app - - - one\n".to_vec();
    let first = input.len();
    input.extend_from_slice(b"<165>1 2003-10-11T22:14:15.003Z host app - - - two\nrest");
    match syslog_rfc5424_in_newline_frame(&input) {
        IResult::Done(consumed, event) => {
            assert_eq!(consumed, first);
            assert_eq!(event.message, Some(Message::MaybeString(b"one".to_vec())));
        }
        other => panic!("not done: {:?}", other),
    }
    match syslog_rfc5424_in_newline_frame(&input[first..]) {
        IResult::Done(consumed, event) => {
            assert_eq!(consumed, first);
            assert_eq!(event.message, Some(Message::MaybeString(b"two".to_vec())));
        }
        other => panic!("not done: {:?}", other),
    }
    assert_eq!(newline_frame(b"ab\ncd"), Some((&b"ab"[..], 3)));
    assert_eq!(newline_frame(b"\n"), Some((&b""[..], 1)));
    assert_eq!(newline_frame(b"abcd"), None);
}

#[test]
fn newline_frame_waits_for_the_newline() {
    assert_eq!(syslog_rfc5424_in_newline_frame(b""), IResult::Incomplete);
    assert_eq!(
        syslog_rfc5424_in_newline_frame(b"<165>1 2003-10-11T22:14:15.003Z host app - - - one"),
        IResult::Incomplete
    );
    assert_eq!(syslog_rfc5424_in_newline_frame(b"<16x5>1 no newline yet"), IResult::Incomplete);
}

#[test]
fn newline_frame_reports_the_kind_of_error() {
    assert_eq!(
        syslog_rfc5424_in_newline_frame(b"\n"),
        IResult::Error(ParserError::Custom(SyslogError::Priority))
    );
    assert_eq!(
        syslog_rfc5424_in_newline_frame(b"<165>1 2003-10-11T22:14:15.003Z - a p m -\n"),
        IResult::Error(ParserError::Custom(SyslogError::Hostname))
    );
}

#[test]
fn rehydrate_rewrites_every_escape() {
    assert_eq!(rehydrate(b"foo#012bar"), b"foo\nbar".to_vec());
    assert_eq!(rehydrate(b"#012#012"), b"\n\n".to_vec());
    assert_eq!(rehydrate(b"#01#0122"), b"#01\n2".to_vec());
    assert_eq!(rehydrate(b"##012"), b"#\n".to_vec());
    assert_eq!(rehydrate(b"#01"), b"#01".to_vec());
    assert_eq!(rehydrate(b""), Vec::<u8>::new());
    assert_eq!(rehydrate("z\u{142}#012\u{142}".as_bytes()), "z\u{142}\n\u{142}".as_bytes().to_vec());
    assert_eq!(
        rehydrate_message(Some(Message::String("a#012b#012".to_string()))),
        Some(Message::String("a\nb\n".to_string()))
    );
    assert_eq!(
        rehydrate_message(Some(Message::MaybeString(b"a#012b".to_vec()))),
        Some(Message::MaybeString(b"a#012b".to_vec()))
    );
    assert_eq!(rehydrate_message(None), None);
    assert_eq!(
        rehydrate_message(Some(Message::String("z\u{142}#012#01#\u{1F600}#0123".to_string()))),
        Some(Message::String("z\u{142}\n#01#\u{1F600}\n3".to_string()))
    );
}

#[test]
fn rfc5425_frame_counts_octets() {
    assert_eq!(rfc5425_frame(b"3 abcdef"), IResult::Done(5, &b"abc"[..]));
    assert_eq!(rfc5425_frame(b"0 abc"), IResult::Done(2, &b""[..]));
    assert_eq!(rfc5425_frame(b"003 abc"), IResult::Done(7, &b"abc"[..]));
    assert_eq!(rfc5425_frame(b""), IResult::Incomplete);
    assert_eq!(rfc5425_frame(b"12"), IResult::Incomplete);
    assert_eq!(rfc5425_frame(b"12 abc"), IResult::Incomplete);
    assert_eq!(rfc5425_frame(b"4294967295 abc"), IResult::Incomplete);
    let refused = IResult::Error(ParserError::Custom(SyslogError::FrameLength));
    assert_eq!(rfc5425_frame(b"x"), refused);
    assert_eq!(rfc5425_frame(b" 3"), refused);
    assert_eq!(rfc5425_frame(b"3x abc"), refused);
    assert_eq!(rfc5425_frame(b"4294967296 abc"), refused);
    assert_eq!(rfc5425_frame(b"4294967296"), refused);
    assert_eq!(rfc5425_frame(b"99999999999999999999999999"), refused);
    assert_eq!(rfc5425_frame(b"4294967295"), IResult::Incomplete);
}

#[test]
fn rfc5425_frame_holds_records_longer_than_255_bytes() {
    let mut record = b"<165>1 2003-10-11T22:14:15.003Z host app - - - ".to_vec();
    record.extend(std::iter::repeat(b'x').take(1000));
    let mut input = format!("{} ", record.len()).into_bytes();
    let digits = input.len() - 1;
    input.extend_from_slice(&record);
    input.extend_from_slice(b"next");
    match syslog_rfc5424_in_rfc5425_frame(&input) {
        IResult::Done(consumed, event) => {
            assert_eq!(consumed, digits + 1 + record.len());
            assert_eq!(event.message, Some(Message::MaybeString(vec![b'x'; 1000])));
        }
        other => panic!("not done: {:?}", other),
    }
}

#[test]
fn rfc5425_frame_does_not_rewrite_escapes() {
    let record = b"<165>1 2003-10-11T22:14:15.003Z host app - - - \xEF\xBB\xBFfoo#012bar";
    let mut input = format!("{} ", record.len()).into_bytes();
    input.extend_from_slice(record);
    match syslog_rfc5424_in_rfc5425_frame(&input) {
        IResult::Done(consumed, event) => {
            assert_eq!(consumed, input.len());
            assert_eq!(event.message, Some(Message::String("foo#012bar".to_string())));
        }
        other => panic!("not done: {:?}", other),
    }
    assert_eq!(
        syslog_rfc5424_in_rfc5425_frame(b"5 <165>"),
        IResult::Error(ParserError::Custom(SyslogError::Priority))
    );
}

#[test]
fn facility_names_follow_the_published_mapping() {
    let names = [
        "kernel", "user-level", "mail", "system", "security/authorization", "syslogd",
        "line printer", "network news", "UUCP", "clock", "security/authorization", "FTP", "NTP",
        "log audit", "log alert", "clock", "local0", "local1", "local2", "local3", "local4",
        "local5", "local6", "local7",
    ];
    for code in 0u8..24 {
        let facility = Facility::from_code(code).unwrap();
        assert_eq!(facility.code(), code);
        assert_eq!(facility.name(), names[code as usize]);
    }
    assert_eq!(Facility::from_code(24), None);
    assert_eq!(Facility::from_code(255), None);
}

#[test]
fn severity_names_are_capitalized() {
    let names = [
        "Emergency", "Alert", "Critical", "Error", "Warning", "Notice", "Informational", "Debug",
    ];
    for code in 0u8..8 {
        let severity = Severity::from_code(code).unwrap();
        assert_eq!(severity.code(), code);
        assert_eq!(severity.name(), names[code as usize]);
    }
    assert_eq!(Severity::from_code(8), None);
}
