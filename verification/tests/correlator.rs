//! Tests for the command correlator and the wire frames.

use rcon_bridge::wire::{decode_response, encode_command, timed_out, Correlator};

#[test]
fn command_frame_shape() {
    let frame = encode_command(7, b"env.time");
    assert_eq!(
        String::from_utf8(frame).unwrap(),
        "{\"Identifier\":7,\"Message\":\"env.time\"}"
    );
    let frame = encode_command(-3, b"say \"hi\"");
    assert_eq!(
        String::from_utf8(frame).unwrap(),
        "{\"Identifier\":-3,\"Message\":\"say \\\"hi\\\"\"}"
    );
}

#[test]
fn command_frame_is_valid_json() {
    let cor = Correlator::new(4711, b"global.playerlist".to_vec());
    let frame = cor.frame();
    let v: serde_json::Value = serde_json::from_slice(&frame).unwrap();
    assert_eq!(v["Identifier"].as_i64().unwrap(), 4711);
    assert_eq!(v["Message"].as_str().unwrap(), "global.playerlist");
}

#[test]
fn response_decodes() {
    let resp = decode_response(
        b"{\"Message\":\"env.time: \\\"10.63853\\\"\",\"Identifier\":7,\"Type\":\"Generic\",\"Stacktrace\":\"\"}",
    )
    .unwrap();
    assert_eq!(resp.identifier, 7);
    assert_eq!(resp.message, b"env.time: \"10.63853\"".to_vec());
}

#[test]
fn response_requires_all_fields() {
    // a frame without a stacktrace is not a reply
    assert!(decode_response(b"{\"Message\":\"m\",\"Identifier\":7,\"Type\":\"Generic\"}").is_none());
    // neither is one that is not JSON
    assert!(decode_response(b"hello").is_none());
    // nor one whose identifier is fractional
    assert!(decode_response(
        b"{\"Message\":\"m\",\"Identifier\":7.5,\"Type\":\"t\",\"Stacktrace\":\"\"}"
    )
    .is_none());
}

#[test]
fn stray_reply_does_not_end_the_wait() {
    // a command pending under identifier 7
    let cor = Correlator::new(7, b"env.time".to_vec());
    // a stray reply under identifier 3 arrives first: discarded
    let stray = b"{\"Message\":\"other\",\"Identifier\":3,\"Type\":\"t\",\"Stacktrace\":\"\"}";
    assert_eq!(cor.step(stray), None);
    // an undecodable frame is discarded too
    assert_eq!(cor.step(b"not a frame"), None);
    // only the matching reply ends the wait
    let matching =
        b"{\"Message\":\"env.time: \\\"12.5\\\"\",\"Identifier\":7,\"Type\":\"t\",\"Stacktrace\":\"\"}";
    assert_eq!(cor.step(matching), Some(b"env.time: \"12.5\"".to_vec()));
}

#[test]
fn timeout_boundary() {
    assert!(!timed_out(0, 1000));
    assert!(!timed_out(999, 1000));
    assert!(timed_out(1000, 1000));
    assert!(timed_out(1001, 1000));
}

#[test]
fn fresh_identifier_in_range() {
    for _ in 0..100 {
        let cor = Correlator::start(b"env.time".to_vec());
        assert!(0 <= cor.identifier && cor.identifier < 9999);
    }
}
