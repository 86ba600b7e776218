use logslash::codec::syslog::grammar::syslog_rfc5424;
use logslash::codec::syslog::sdata::are_wf;
use logslash::codec::syslog::sdata::has_unique_names;
use logslash::codec::syslog::sdata::StructuredElement;
use logslash::event::Event;
use logslash::event::LogstashEvent;
use logslash::output::debug::try_serialize_event;
use logslash::output::debug::DebugPort;
use logslash::output::debug::SyslogDebugPortEvent;
use logslash::output::write::Scratch;
use logslash::serialize::JsonEventSerializer;
use logslash::serialize::JsonLogstashEventSerializer;
use logslash::serialize::Serializer;
use logslash::time::is_last_second;
use logslash::time::Timestamp;
use logslash::time::MAX_SECS;
use logslash::time::MIN_SECS;

fn pair(name: &str, value: &str) -> (String, String) {
    (name.to_string(), value.to_string())
}

#[test]
fn timestamps_in_and_out_of_the_calendar() {
    assert!(Timestamp { secs: 0, nanos: 0, offset: 0 }.is_wf());
    assert!(Timestamp { secs: MIN_SECS, nanos: 0, offset: -86_399 }.is_wf());
    assert!(Timestamp { secs: MAX_SECS, nanos: 1_999_999_999, offset: 86_399 }.is_wf());
    assert!(!Timestamp { secs: MIN_SECS - 1, nanos: 0, offset: 0 }.is_wf());
    assert!(!Timestamp { secs: MAX_SECS + 1, nanos: 0, offset: 0 }.is_wf());
    assert!(!Timestamp { secs: 0, nanos: 2_000_000_000, offset: 0 }.is_wf());
    assert!(!Timestamp { secs: 0, nanos: 1_000_000_000, offset: 0 }.is_wf());
    assert!(Timestamp { secs: 59, nanos: 1_000_000_000, offset: 0 }.is_wf());
    assert!(Timestamp { secs: -1, nanos: 1_000_000_000, offset: 0 }.is_wf());
    assert!(!Timestamp { secs: -59, nanos: 1_000_000_000, offset: 0 }.is_wf());
    assert!(!Timestamp { secs: 0, nanos: 0, offset: 86_400 }.is_wf());
    assert!(!Timestamp { secs: 0, nanos: 0, offset: -86_400 }.is_wf());
    assert!(is_last_second(59));
    assert!(is_last_second(-1));
    assert!(is_last_second(-61));
    assert!(!is_last_second(0));
    assert!(!is_last_second(-59));
    assert!(!is_last_second(i64::MIN));
}

#[test]
fn every_timestamp_of_the_calendar_has_a_text() {
    let offsets = [-86_399, -3600, 0, 3600, 86_399];
    let instants = [
        (MIN_SECS, 0),
        (MIN_SECS + 59, 1_999_999_999),
        (-1, 1_500_000_000),
        (0, 0),
        (1065910455, 3_000_000),
        (MAX_SECS - 1, 999_999_999),
        (MAX_SECS, 1_999_999_999),
    ];
    for (secs, nanos) in instants.iter() {
        for offset in offsets.iter() {
            let t = Timestamp { secs: *secs, nanos: *nanos, offset: *offset };
            assert!(t.is_wf());
            assert!(!t.to_rfc3339().is_empty());
            assert_eq!(t.to_rfc3339(), t.to_rfc3339());
        }
    }
}

#[test]
fn names_are_unique_or_not() {
    assert!(has_unique_names(&Vec::new()));
    assert!(has_unique_names(&vec![pair("a", "1")]));
    assert!(has_unique_names(&vec![pair("a", "1"), pair("b", "1"), pair("c", "1")]));
    assert!(!has_unique_names(&vec![pair("a", "1"), pair("b", "1"), pair("a", "2")]));
    assert!(!has_unique_names(&vec![pair("a", "1"), pair("a", "1")]));
    let good = StructuredElement { id: "id".to_string(), params: vec![pair("a", "1")] };
    let nameless = StructuredElement { id: String::new(), params: Vec::new() };
    let doubled = StructuredElement { id: "id".to_string(), params: vec![pair("a", "1"), pair("a", "2")] };
    assert_eq!(doubled.param("a"), Some(&"2".to_string()));
    assert_eq!(doubled.param("b"), None);
    assert_eq!(nameless.param("a"), None);
    assert!(good.is_wf());
    assert!(!nameless.is_wf());
    assert!(!doubled.is_wf());
    assert!(are_wf(&Vec::new()));
    assert!(are_wf(&vec![good.clone(), good.clone()]));
    assert!(!are_wf(&vec![good, doubled]));
}

#[test]
fn parsed_events_are_well_formed() {
    let inputs: [&[u8]; 3] = [
        b"<165>1 2003-10-11T22:14:15.003Z host app 1 ID47 - text",
        b"<13>1 2003-10-11T22:14:15.003Z host - - - [a b=\"c\" b=\"d\"][e]",
        b"<191>1 2016-12-31T23:59:60.5-01:00 host - - - - \xEF\xBB\xBFtext",
    ];
    for input in inputs.iter() {
        let event = syslog_rfc5424(input).unwrap();
        assert!(event.is_wf());
        assert!(event.event_ok());
        assert!(event.logstash_ok());
        assert!(<JsonEventSerializer as Serializer<_>>::takes(&event));
        assert!(<JsonLogstashEventSerializer as Serializer<_>>::takes(&event));
        assert!(SyslogDebugPortEvent(event).port_ok());
    }
}

#[test]
fn events_that_are_not_well_formed_are_not_taken() {
    let event = syslog_rfc5424(b"<165>1 2003-10-11T22:14:15.003Z host app 1 ID47 - text").unwrap();
    let mut broken = event.clone();
    broken.hostname = String::new();
    assert!(!broken.is_wf());
    let mut broken = event.clone();
    broken.processed.offset = 60;
    assert!(!broken.is_wf());
    let mut broken = event.clone();
    broken.timestamp.nanos = 2_000_000_000;
    assert!(!broken.is_wf());
    assert!(!<JsonEventSerializer as Serializer<_>>::takes(&broken));
    let mut broken = event.clone();
    broken.structured_data = Some(vec![StructuredElement { id: String::new(), params: Vec::new() }]);
    assert!(!broken.is_wf());
    let port = SyslogDebugPortEvent(broken);
    assert!(!port.port_ok());
    let mut buf = b"kept".to_vec();
    assert!(try_serialize_event(&port, &mut buf, &JsonEventSerializer).is_none());
    assert_eq!(buf, b"kept".to_vec());
    let port = SyslogDebugPortEvent(event);
    assert_eq!(port.payload().hostname, "host");
    let mut buf = Vec::new();
    assert!(try_serialize_event(&port, &mut buf, &JsonEventSerializer).unwrap().is_ok());
    assert!(buf.ends_with(b"}\n"));
}

#[test]
fn scratch_knows_where_its_buffer_is() {
    let mut scratch = Scratch::new();
    assert!(scratch.is_available());
    assert!(!scratch.is_taken());
    let buf = scratch.take();
    assert!(!scratch.is_available());
    assert!(scratch.is_taken());
    scratch.put_back(buf);
    assert!(scratch.is_available());
    let full = Scratch { slot: Some(b"left over".to_vec()) };
    assert!(!full.is_available());
    assert!(!full.is_taken());
}
