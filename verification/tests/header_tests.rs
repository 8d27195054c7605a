use flow_core::header::{
    escape_str, unescape_str, ErrorInfoHeader, RemoteStackError,
};
use flow_core::status::StatusCode;

#[test]
fn test_back_and_forth() {
    let testcases: [(u32, &str, Vec<&str>); 3] = [
        (1003, "test", vec![]),
        (
            1002,
            "Unexpected, violated: Invalid database name: ㊙️database",
            vec![],
        ),
        (
            1003,
            "test",
            vec!["0: test", "1: stack error 1", "2: stack error 2"],
        ),
    ];
    for (code, msg, stack_errors) in &testcases[1..] {
        let info = ErrorInfoHeader::new(
            *code,
            msg.to_string(),
            stack_errors.iter().map(|s| s.to_string()).collect(),
        );
        let values = info.encode();
        let info2 = ErrorInfoHeader::decode(&values).unwrap();

        assert_eq!(
            (info.code, info.msg, info.stack_errors),
            (info2.code, info2.msg, info2.stack_errors)
        );
    }
}

#[test]
fn back_and_forth_through_http_header_map() {
    let info = ErrorInfoHeader::new(
        1002,
        "Unexpected, violated: Invalid database name: ㊙️database".to_string(),
        vec!["0: test".to_string(), "1: stack error 1".to_string()],
    );
    let name = http::header::HeaderName::from_static("x-greptime-err-info");
    let mut map = http::HeaderMap::new();
    for value in info.encode() {
        map.append(
            name.clone(),
            http::header::HeaderValue::from_bytes(value.as_bytes()).unwrap(),
        );
    }
    let wire: Vec<String> = map
        .get_all(&name)
        .iter()
        .map(|v| String::from_utf8_lossy(v.as_bytes()).into_owned())
        .collect();
    let info2 = ErrorInfoHeader::decode(&wire).unwrap();
    assert_eq!(info2.code, 1002);
    assert_eq!(
        info2.msg,
        "Unexpected, violated: Invalid database name: ㊙️database"
    );
    assert_eq!(info2.stack_errors, vec!["0: test", "1: stack error 1"]);
}

#[test]
fn decoder_matches_reference_unescaper() {
    let cases = [
        "hello",
        "tab\\ttail",
        "\\u{4e16}",
        "\\u4e16",
        "\\x41",
        "\\101",
        "\\41",
        "a\\\\b",
        "\\n\\r\\'\\\"\\/",
        "\\b\\f\\v",
        "\\u{0}",
    ];
    for s in cases {
        let ours = unescape_str(s).unwrap();
        let reference = unescaper::unescape(s).unwrap();
        assert_eq!(ours, reference, "diverged on {s}");
    }
    // and both reject the same malformed inputs
    for bad in ["\\", "\\q", "\\u{}", "\\x4", "\\u004"] {
        assert!(unescape_str(bad).is_none(), "accepted {bad}");
        assert!(unescaper::unescape(bad).is_err());
    }
}

#[test]
fn escape_round_trips_through_reference_unescaper() {
    let originals = [
        "plain ascii",
        "line\nbreaks\tand\rquotes'\"\\",
        "unicode: ㊙️ és 世界 \u{1F600}",
        "",
    ];
    for orig in originals {
        let escaped = escape_str(orig);
        assert!(escaped.is_ascii());
        assert_eq!(unescape_str(&escaped).unwrap(), orig);
        assert_eq!(unescaper::unescape(&escaped).unwrap(), orig);
    }
}

#[test]
fn decode_rejects_bad_values() {
    // too short
    assert!(ErrorInfoHeader::decode(&vec!["1003".to_string()]).is_none());
    // code not numeric
    assert!(ErrorInfoHeader::decode(&vec!["abc".to_string(), "m".to_string()]).is_none());
    // code overflows u32
    assert!(
        ErrorInfoHeader::decode(&vec!["4294967296".to_string(), "m".to_string()]).is_none()
    );
    // malformed escape in the message
    assert!(ErrorInfoHeader::decode(&vec!["7".to_string(), "\\q".to_string()]).is_none());
    // malformed escape in a frame
    assert!(ErrorInfoHeader::decode(&vec![
        "7".to_string(),
        "m".to_string(),
        "\\".to_string()
    ])
    .is_none());
    // boundary code still decodes
    let h =
        ErrorInfoHeader::decode(&vec!["4294967295".to_string(), "m".to_string()]).unwrap();
    assert_eq!(h.code, u32::MAX);
}

#[test]
fn remote_stack_error_keeps_frames() {
    let err = RemoteStackError::new(
        StatusCode::Internal,
        "boom".to_string(),
        vec!["0: inner".to_string()],
    );
    let listed = flow_core::header::from_stacked_errors_to_list(&err);
    assert_eq!(listed, vec!["RemoteStackError: boom", "0: inner"]);

    let forwarded = RemoteStackError::from_stack_error(&err);
    assert_eq!(forwarded.code, StatusCode::Internal);
    assert_eq!(forwarded.msg, "boom");
    assert_eq!(forwarded.stack_error, vec!["RemoteStackError: boom", "0: inner"]);

    let header = ErrorInfoHeader::from_error(&err);
    assert_eq!(header.code, 1003);
    assert_eq!(header.msg, "boom");
    assert_eq!(header.stack_errors, vec!["RemoteStackError: boom", "0: inner"]);
}

#[test]
fn status_codes_round_trip() {
    for code in [
        StatusCode::Success,
        StatusCode::Unknown,
        StatusCode::Unexpected,
        StatusCode::Internal,
        StatusCode::InvalidArguments,
        StatusCode::Cancelled,
        StatusCode::DeadlineExceeded,
        StatusCode::Unavailable,
    ] {
        assert_eq!(StatusCode::from_u32(code.as_u32()), Some(code));
    }
    assert_eq!(StatusCode::from_u32(9999), None);
    assert_eq!(StatusCode::Internal.as_u32(), 1003);
    assert_eq!(StatusCode::Unexpected.as_u32(), 1002);
}
