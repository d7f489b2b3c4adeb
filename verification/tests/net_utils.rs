use netperf::common::consts::MAX_CONTROL_MESSAGE;
use netperf::common::control::{
    open_server_envelope, to_server_error, NetperfError, ServerEnvelope, ServerError,
    ServerMessage,
};
use netperf::common::net_utils::{encode_frame, FrameReader};

fn read_back(frame: &[u8]) -> Result<Vec<u8>, NetperfError> {
    let size = u32::from_be_bytes([frame[0], frame[1], frame[2], frame[3]]);
    let mut reader = FrameReader::new(size)?;
    let mut rest = &frame[4..];
    while !reader.is_complete() {
        // deliver the bytes in pieces of at most 5 bytes
        let n = std::cmp::min(5, std::cmp::min(rest.len(), reader.remaining() as usize));
        reader.feed(&rest[..n])?;
        rest = &rest[n..];
    }
    Ok(reader.into_payload())
}

fn mock() -> serde_json::Value {
    let mut map = serde_json::Map::new();
    map.insert("username".to_owned(), serde_json::Value::String("asoli".to_owned()));
    serde_json::Value::Object(map)
}

#[test]
fn test_send_control_message() {
    let obj = mock();
    let json = serde_json::to_vec(&obj).unwrap();
    let buf = encode_frame(&json);
    assert_eq!(buf.len(), 24);
    let payload = read_back(&buf).unwrap();
    let data: serde_json::Value = serde_json::from_slice(&payload).unwrap();
    assert_eq!(data, obj);
}

#[test]
fn test_messages() {
    // Send and receive server messages.
    {
        let json = br#"{"ServerMessage":"Welcome"}"#;
        let buf = encode_frame(json);
        let payload = read_back(&buf).unwrap();
        assert_eq!(&payload[..], &json[..]);
        let data = open_server_envelope(ServerEnvelope::ServerMessage(ServerMessage::Welcome));
        assert!(matches!(data, Ok(ServerMessage::Welcome)));
    }
    // Send and receive errors
    {
        let json = br#"{"Error":{"AccessDenied":"Something went wrong"}}"#;
        let buf = encode_frame(json);
        let payload = read_back(&buf).unwrap();
        assert_eq!(&payload[..], &json[..]);
        let data = open_server_envelope(ServerEnvelope::Error(ServerError::AccessDenied(
            "Something went wrong".to_owned(),
        )));
        assert!(data.is_err());
        assert!(matches!(to_server_error(&data),
            Some(ServerError::AccessDenied(msg)) if *msg == "Something went wrong"));
    }
}

#[test]
fn frame_header_is_big_endian_length() {
    let payload = vec![7u8; 300];
    let frame = encode_frame(&payload);
    assert_eq!(&frame[..4], &[0, 0, 1, 44]);
    assert_eq!(&frame[4..], &payload[..]);
    assert_eq!(encode_frame(&[]), vec![0, 0, 0, 0]);
}

#[test]
fn empty_frame_is_complete_at_once() {
    let reader = FrameReader::new(0).unwrap();
    assert!(reader.is_complete());
    assert_eq!(reader.remaining(), 0);
    assert!(reader.into_payload().is_empty());
}

#[test]
fn oversized_frame_is_refused() {
    assert!(matches!(
        FrameReader::new(MAX_CONTROL_MESSAGE + 1),
        Err(NetperfError::MessageTooLarge(n)) if n == MAX_CONTROL_MESSAGE + 1
    ));
    assert!(FrameReader::new(MAX_CONTROL_MESSAGE).is_ok());
}

#[test]
fn closed_connection_mid_frame() {
    let mut reader = FrameReader::new(10).unwrap();
    reader.feed(b"abc").unwrap();
    assert_eq!(reader.remaining(), 7);
    assert!(matches!(reader.feed(b""), Err(NetperfError::ConnectionClosed)));
    assert_eq!(reader.remaining(), 7);
    assert!(!reader.is_complete());
}
