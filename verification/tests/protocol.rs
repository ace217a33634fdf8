//! The wire protocol.

use mayfly_helper::errors::Error;
use mayfly_helper::protocol::{
    constant_time_eq, declared_len, read_frame, write_frame, Operation, Outcome, Request, Response,
    HELPER_VERSION, MAX_BODY_BYTES, PROTOCOL_VERSION,
};

#[test]
fn write_frame_rejects_oversized_body() {
    let big = vec![0u8; MAX_BODY_BYTES + 1];
    let mut buf = Vec::new();
    assert!(matches!(
        write_frame(&mut buf, &big).unwrap_err(),
        Error::HelperProtocol
    ));
}

#[test]
fn read_frame_rejects_oversized_length_prefix() {
    // Declared length exceeds the cap; no allocation should occur.
    let mut buf = Vec::new();
    buf.extend_from_slice(&((MAX_BODY_BYTES as u32) + 1).to_be_bytes());
    let mut cursor = buf.as_slice();
    assert!(matches!(
        read_frame(&mut cursor).unwrap_err(),
        Error::HelperProtocol
    ));
}

#[test]
fn read_frame_reports_unavailable_on_truncation() {
    // Length says 8 bytes but only 2 are present.
    let mut buf = Vec::new();
    buf.extend_from_slice(&8u32.to_be_bytes());
    buf.extend_from_slice(&[1, 2]);
    let mut cursor = buf.as_slice();
    assert!(matches!(
        read_frame(&mut cursor).unwrap_err(),
        Error::HelperUnavailable
    ));
}

#[test]
fn constant_time_eq_matches_semantics() {
    assert!(constant_time_eq(b"abc", b"abc"));
    assert!(!constant_time_eq(b"abc", b"abd"));
    assert!(!constant_time_eq(b"abc", b"abcd"));
    assert!(constant_time_eq(b"", b""));
}

#[test]
fn constant_time_eq_sees_every_byte() {
    assert!(!constant_time_eq(b"\x00bc", b"abc"));
    assert!(!constant_time_eq(b"a\xffc", b"abc"));
    assert!(!constant_time_eq(b"", b"a"));
}

#[test]
fn frame_is_length_then_body() {
    let mut buf = vec![9u8];
    write_frame(&mut buf, b"hi").unwrap();
    assert_eq!(buf, vec![9, 0, 0, 0, 2, b'h', b'i']);
}

#[test]
fn refused_body_leaves_the_output_alone() {
    let big = vec![7u8; MAX_BODY_BYTES + 1];
    let mut buf = vec![1u8, 2];
    assert!(write_frame(&mut buf, &big).is_err());
    assert_eq!(buf, vec![1, 2]);
}

#[test]
fn frames_round_trip_back_to_back() {
    let mut buf = Vec::new();
    write_frame(&mut buf, b"first").unwrap();
    write_frame(&mut buf, b"").unwrap();
    write_frame(&mut buf, &vec![5u8; 70_000]).unwrap();
    let mut input = buf.as_slice();
    assert_eq!(read_frame(&mut input).unwrap(), b"first");
    assert_eq!(read_frame(&mut input).unwrap(), b"");
    assert_eq!(read_frame(&mut input).unwrap(), vec![5u8; 70_000]);
    assert!(input.is_empty());
}

#[test]
fn largest_body_is_accepted() {
    let body = vec![1u8; MAX_BODY_BYTES];
    let mut buf = Vec::new();
    write_frame(&mut buf, &body).unwrap();
    assert_eq!(&buf[..4], &[0, 0x10, 0, 0]);
    let mut input = buf.as_slice();
    assert_eq!(read_frame(&mut input).unwrap().len(), MAX_BODY_BYTES);
}

#[test]
fn truncated_prefix_is_unavailable() {
    let bytes = [0u8, 0, 0];
    let mut input = &bytes[..];
    assert!(matches!(
        read_frame(&mut input).unwrap_err(),
        Error::HelperUnavailable
    ));
}

#[test]
fn declared_length_is_big_endian_and_capped() {
    assert_eq!(declared_len([0, 0, 1, 2]).unwrap(), 258);
    assert_eq!(declared_len([0, 0x10, 0, 0]).unwrap(), MAX_BODY_BYTES);
    assert!(matches!(
        declared_len([0, 0x10, 0, 1]).unwrap_err(),
        Error::HelperProtocol
    ));
    assert!(matches!(
        declared_len([0xff, 0xff, 0xff, 0xff]).unwrap_err(),
        Error::HelperProtocol
    ));
}

#[test]
fn requests_carry_the_protocol_version() {
    let ping = Request::new("tok", Operation::Ping);
    assert_eq!(ping.protocol_version, PROTOCOL_VERSION);
    assert_eq!(ping.token, "tok");
    assert_eq!(ping.op, Operation::Ping);
    assert_eq!(ping.content, None);

    let apply = Request::apply("tok", "# keys\n");
    assert_eq!(apply.protocol_version, PROTOCOL_VERSION);
    assert_eq!(apply.op, Operation::ApplyTrustedCaKeys);
    assert_eq!(apply.content.as_deref(), Some("# keys\n"));
}

#[test]
fn responses_say_what_they_are_built_from() {
    let ok = Response::success(Outcome::Applied);
    assert!(ok.ok);
    assert_eq!(ok.outcome, Outcome::Applied);
    assert_eq!(ok.detail, None);
    assert_eq!(ok.helper_version, None);

    let failed = Response::failure(Outcome::RolledBack, "sshd validation failed");
    assert!(!failed.ok);
    assert_eq!(failed.outcome, Outcome::RolledBack);
    assert_eq!(failed.detail.as_deref(), Some("sshd validation failed"));
    assert_eq!(failed.helper_version, None);

    let pong = Response::pong();
    assert!(pong.ok);
    assert_eq!(pong.outcome, Outcome::Success);
    assert_eq!(pong.helper_version.as_deref(), Some(HELPER_VERSION));
    assert_eq!(pong.detail, None);
}

#[test]
fn different_bodies_have_different_frames() {
    let bodies: [&[u8]; 4] = [b"", b"\x00", b"\x00\x00\x00\x00", b"a"];
    for (i, a) in bodies.iter().enumerate() {
        for (j, b) in bodies.iter().enumerate() {
            let (mut fa, mut fb) = (Vec::new(), Vec::new());
            write_frame(&mut fa, a).unwrap();
            write_frame(&mut fb, b).unwrap();
            assert_eq!(fa == fb, i == j);
        }
    }
}
