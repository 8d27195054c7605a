use flow_core::client::{Code, Error};
use flow_core::header::ErrorInfoHeader;
use flow_core::meta;
use flow_core::status::StatusCode;

fn region(code: Code) -> Error {
    Error::RegionServer {
        addr: "127.0.0.1:4001".to_string(),
        code,
        source_code: StatusCode::Internal,
    }
}

fn flow(code: Code) -> Error {
    Error::FlowServer {
        addr: "127.0.0.1:4004".to_string(),
        code,
        source_code: StatusCode::Internal,
    }
}

#[test]
fn retry_only_transient_server_errors() {
    for code in [
        Code::Cancelled,
        Code::DeadlineExceeded,
        Code::Unavailable,
        Code::Unknown,
    ] {
        assert!(region(code).should_retry());
        assert!(flow(code).should_retry());
    }
    for code in [Code::Internal, Code::Okay, Code::NotFound, Code::OutOfRange] {
        assert!(!region(code).should_retry());
        assert!(!flow(code).should_retry());
    }
    assert!(!Error::Server {
        code: StatusCode::Unavailable,
        msg: "m".to_string()
    }
    .should_retry());
    assert!(!Error::IllegalGrpcClientState {
        err_msg: "m".to_string()
    }
    .should_retry());
}

#[test]
fn status_codes_of_errors() {
    assert_eq!(
        Error::IllegalGrpcClientState {
            err_msg: String::new()
        }
        .status_code(),
        StatusCode::Unexpected
    );
    assert_eq!(
        Error::InvalidAscii {
            value: String::new()
        }
        .status_code(),
        StatusCode::InvalidArguments
    );
    assert_eq!(
        Error::Server {
            code: StatusCode::Cancelled,
            msg: String::new()
        }
        .status_code(),
        StatusCode::Cancelled
    );
    assert_eq!(
        region(Code::Unknown).status_code(),
        StatusCode::Internal
    );
}

#[test]
fn decoded_header_turns_into_server_error() {
    let info = ErrorInfoHeader::new(1002, "bad".to_string(), vec![]);
    match Error::from_status_parts(Some(info), "ignored") {
        Error::Server { code, msg } => {
            assert_eq!(code, StatusCode::Unexpected);
            assert_eq!(msg, "bad");
        }
        other => panic!("unexpected {other:?}"),
    }
    // an unknown numeric code maps to Unknown
    let info = ErrorInfoHeader::new(424242, "odd".to_string(), vec![]);
    match Error::from_status_parts(Some(info), "ignored") {
        Error::Server { code, .. } => assert_eq!(code, StatusCode::Unknown),
        other => panic!("unexpected {other:?}"),
    }
    // a missing header falls back to an internal error naming the message
    match Error::from_status_parts(None, "boom") {
        Error::Server { code, msg } => {
            assert_eq!(code, StatusCode::Internal);
            assert_eq!(
                msg,
                "Failed to decode error info header, tonic message: boom"
            );
        }
        other => panic!("unexpected {other:?}"),
    }
}

#[test]
fn meta_size_limit_is_out_of_range() {
    let e = meta::Error::MetaServer {
        code: StatusCode::Internal,
        msg: "too big".to_string(),
        stack_errors: vec![],
        tonic_code: Code::OutOfRange,
    };
    assert!(e.is_exceeded_size_limit());
    let e = meta::Error::MetaServer {
        code: StatusCode::Internal,
        msg: "other".to_string(),
        stack_errors: vec![],
        tonic_code: Code::Internal,
    };
    assert!(!e.is_exceeded_size_limit());
    assert!(!meta::Error::NoLeader.is_exceeded_size_limit());
}

#[test]
fn meta_error_from_header() {
    let info = ErrorInfoHeader::new(1003, "remote".to_string(), vec!["f0".to_string()]);
    match meta::Error::from_status_parts(Some(info), Code::Internal, "ignored") {
        meta::Error::MetaServer {
            code,
            msg,
            stack_errors,
            tonic_code,
        } => {
            assert_eq!(code, StatusCode::Internal);
            assert_eq!(msg, "remote");
            assert_eq!(stack_errors, vec!["f0"]);
            assert_eq!(tonic_code, Code::Internal);
        }
        other => panic!("unexpected {other:?}"),
    }
}
