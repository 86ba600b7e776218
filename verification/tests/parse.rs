use logslash::codec::parse::int_u8;
use logslash::codec::parse::same_text;
use logslash::codec::parse::string;
use logslash::codec::parse::timestamp;
use logslash::codec::parse::ErrorKind;
use logslash::codec::scan::find;
use logslash::codec::scan::scan_decimal;
use logslash::codec::scan::scan_digits;
use logslash::time::Timestamp;

#[test]
fn string_reads_utf8() {
    assert_eq!(string(b"hello"), Ok("hello"));
    assert_eq!(string("z\u{142}oty".as_bytes()), Ok("z\u{142}oty"));
    assert_eq!(string(b""), Ok(""));
}

#[test]
fn string_refuses_bad_utf8() {
    assert_eq!(string(b"\xff\xfe"), Err(ErrorKind::Utf8Error));
    assert_eq!(string(b"ab\xc3"), Err(ErrorKind::Utf8Error));
}

#[test]
fn int_u8_reads_decimal() {
    assert_eq!(int_u8(b"0"), Ok(0));
    assert_eq!(int_u8(b"165"), Ok(165));
    assert_eq!(int_u8(b"255"), Ok(255));
    assert_eq!(int_u8(b"007"), Ok(7));
    assert_eq!(int_u8(b"+42"), Ok(42));
}

#[test]
fn int_u8_agrees_with_std() {
    let cases: [&[u8]; 12] = [
        b"", b"+", b"-", b"-1", b"256", b"1000", b"12a", b" 1", b"1 ", b"+255", b"++1", b"0000000255",
    ];
    for case in cases.iter() {
        let text = std::str::from_utf8(case).unwrap();
        let expected = text.parse::<u8>().map_err(|_| ErrorKind::ParseIntError);
        assert_eq!(int_u8(case), expected, "{:?}", text);
    }
}

#[test]
fn int_u8_refuses_bad_input() {
    assert_eq!(int_u8(b""), Err(ErrorKind::ParseIntError));
    assert_eq!(int_u8(b"256"), Err(ErrorKind::ParseIntError));
    assert_eq!(int_u8(b"16x5"), Err(ErrorKind::ParseIntError));
    assert_eq!(int_u8(b"-1"), Err(ErrorKind::ParseIntError));
    assert_eq!(int_u8(b"1\xff"), Err(ErrorKind::Utf8Error));
}

#[test]
fn timestamp_reads_rfc3339() {
    let t = timestamp(b"2003-10-11T22:14:15.003Z").unwrap();
    assert_eq!(t, Timestamp { secs: 1065910455, nanos: 3_000_000, offset: 0 });
    let t = timestamp(b"1985-04-12T19:20:50.52-04:00").unwrap();
    assert_eq!(t, Timestamp { secs: 482196050, nanos: 520_000_000, offset: -4 * 3600 });
    assert_eq!(t.to_rfc3339(), "1985-04-12T19:20:50.520-04:00");
    assert_eq!(t.to_utc().to_rfc3339(), "1985-04-12T23:20:50.520+00:00");
}

#[test]
fn timestamp_refuses_what_is_none() {
    assert_eq!(timestamp(b"yesterday"), Err(ErrorKind::TimestampError));
    assert_eq!(timestamp(b""), Err(ErrorKind::TimestampError));
    assert_eq!(timestamp(b"2003-13-11T22:14:15Z"), Err(ErrorKind::TimestampError));
    assert_eq!(timestamp(b"2003-10-11T22:14:15\xffZ"), Err(ErrorKind::Utf8Error));
}

#[test]
fn timestamp_in_bsd_form_has_no_offset_to_go_by() {
    assert_eq!(timestamp(b"Oct 11 22:14:15"), Err(ErrorKind::TimestampError));
    assert_eq!(timestamp(b"Oct  1 22:14:15"), Err(ErrorKind::TimestampError));
}

#[test]
fn timestamp_at_utc_keeps_its_numbers() {
    assert_eq!(Timestamp::at_utc(0, 0), Timestamp { secs: 0, nanos: 0, offset: 0 });
    assert_eq!(
        Timestamp::at_utc(-5, 999_999_999),
        Timestamp { secs: -5, nanos: 999_999_999, offset: 0 }
    );
    assert_eq!(Timestamp::at_utc(1065910455, 3_000_000).to_rfc3339(), "2003-10-11T22:14:15.003+00:00");
}

#[test]
fn timestamp_now_is_utc() {
    let now = Timestamp::now();
    assert_eq!(now.offset, 0);
    assert!(now.nanos < 1_000_000_000);
    assert!(now.secs > 1_600_000_000);
    assert!(now.to_rfc3339().ends_with("+00:00"));
}

#[test]
fn timestamp_to_utc_keeps_the_instant() {
    let t = Timestamp { secs: 1065910455, nanos: 3_000_000, offset: 3600 };
    assert_eq!(t.to_rfc3339(), "2003-10-11T23:14:15.003+01:00");
    assert_eq!(t.to_utc(), Timestamp { secs: 1065910455, nanos: 3_000_000, offset: 0 });
    assert_eq!(t.to_utc().to_rfc3339(), "2003-10-11T22:14:15.003+00:00");
}

#[test]
fn timestamp_renders_the_ends_of_the_calendar() {
    let first = Timestamp { secs: logslash::time::MIN_SECS, nanos: 0, offset: 0 };
    let last = Timestamp { secs: logslash::time::MAX_SECS, nanos: 999_999_999, offset: 0 };
    assert_eq!(first.to_rfc3339(), "-262143-01-01T00:00:00+00:00");
    assert_eq!(last.to_rfc3339(), "+262142-12-31T23:59:59.999999999+00:00");
    let leap = Timestamp { secs: 59, nanos: 1_500_000_000, offset: -86_399 };
    assert_eq!(leap.to_rfc3339(), "1969-12-31T00:01:01.500-24:00");
}

#[test]
fn same_text_compares_texts() {
    assert!(same_text("abc", "abc"));
    assert!(!same_text("abc", "abd"));
    assert!(!same_text("abc", "ab"));
    assert!(same_text("", ""));
}

#[test]
fn scan_decimal_reads_numbers() {
    assert_eq!(scan_decimal(b"<165>", 1, 191), Some((165, 4)));
    assert_eq!(scan_decimal(b"<192>", 1, 191), None);
    assert_eq!(scan_decimal(b"<>", 1, 191), None);
    assert_eq!(scan_decimal(b"000191", 0, 191), Some((191, 6)));
    assert_eq!(scan_decimal(b"4294967295 ", 0, 0xffff_ffff), Some((4294967295, 10)));
    assert_eq!(scan_decimal(b"4294967296 ", 0, 0xffff_ffff), None);
    assert_eq!(scan_decimal(b"12", 2, 10), None);
}

#[test]
fn scan_finds_ends() {
    assert_eq!(scan_digits(b"123 45", 0), 3);
    assert_eq!(scan_digits(b"x", 0), 0);
    assert_eq!(scan_digits(b"12", 0), 2);
    assert_eq!(find(b"ab cd", 0, b' '), 2);
    assert_eq!(find(b"ab cd", 3, b' '), 5);
    assert_eq!(find(b"", 0, b' '), 0);
}
