use std::io;

use infrarust::error::{IoErrorKind, ProtocolError};

#[test]
fn test_incomplete_is_not_fatal() {
    let err = ProtocolError::Incomplete { context: "varint" };
    assert!(!err.is_fatal());
    assert!(err.is_incomplete());
}

#[test]
fn test_invalid_is_fatal() {
    let err = ProtocolError::invalid("bad packet id");
    assert!(err.is_fatal());
    assert!(!err.is_incomplete());
}

#[test]
fn test_too_large_is_fatal() {
    let err = ProtocolError::too_large(1024, 9999);
    assert!(err.is_fatal());
    assert!(!err.is_incomplete());
}

#[test]
fn test_io_would_block_is_not_fatal() {
    let err = ProtocolError::from(io::Error::new(io::ErrorKind::WouldBlock, "would block"));
    assert!(!err.is_fatal());
}

#[test]
fn test_io_connection_reset_is_fatal() {
    let err = ProtocolError::from(io::Error::new(io::ErrorKind::ConnectionReset, "reset"));
    assert!(err.is_fatal());
}

#[test]
fn test_from_io_error_conversion() {
    let io_err = io::Error::new(io::ErrorKind::BrokenPipe, "pipe broke");
    let proto_err: ProtocolError = io_err.into();
    assert!(matches!(proto_err, ProtocolError::Io(_)));
    assert!(proto_err.is_fatal());
}

#[test]
fn test_display_messages_are_descriptive() {
    let incomplete = ProtocolError::Incomplete { context: "varint" };
    assert!(
        incomplete.message().contains("varint"),
        "incomplete display should contain context"
    );

    let invalid = ProtocolError::invalid("bad string length");
    let msg = invalid.message();
    assert!(
        msg.contains("bad string length"),
        "invalid display should contain context"
    );

    let too_large = ProtocolError::too_large(1024, 2048);
    let msg = too_large.message();
    assert!(msg.contains("1024"), "too_large display should contain max");
    assert!(
        msg.contains("2048"),
        "too_large display should contain actual"
    );
}

#[test]
fn io_unexpected_eof_is_not_fatal_and_keeps_kind() {
    let err = ProtocolError::from(io::Error::new(io::ErrorKind::UnexpectedEof, "eof"));
    assert!(!err.is_fatal());
    assert!(!err.is_incomplete());
    match err {
        ProtocolError::Io(e) => {
            assert_eq!(e.kind, IoErrorKind::UnexpectedEof);
            assert!(e.message.contains("eof"));
        }
        _ => panic!("expected an I/O error"),
    }
}

#[test]
fn too_large_message_is_exact() {
    assert_eq!(
        ProtocolError::too_large(10, 250).message(),
        "too large: 250 bytes exceeds maximum of 10"
    );
    assert_eq!(ProtocolError::invalid("x").message(), "invalid: x");
    assert_eq!(
        ProtocolError::Incomplete { context: "u8" }.message(),
        "incomplete: u8"
    );
}
