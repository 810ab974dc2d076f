use code_monkey::protocol::codec::{
    decode_message, encode_message, CodecError, HEADER_LEN, MAX_PAYLOAD_LEN,
};

const PING: &[u8] = br#"{"type":"Ping"}"#;
const ACK_OK: &[u8] = br#"{"type":"Ack","status":"Ok","message":null}"#;

fn execute_typing(text: &str) -> Vec<u8> {
    format!(
        "{{\"type\":\"Execute\",\"actions\":[{{\"Type\":\"{text}\"}}],\"typing_speed\":40,\"typing_variance\":15}}"
    )
    .into_bytes()
}

#[test]
fn test_encode_message() {
    let msg = PING;
    let encoded = encode_message(msg).unwrap();
    assert!(encoded.len() > 4);
    let len = u32::from_be_bytes([encoded[0], encoded[1], encoded[2], encoded[3]]) as usize;
    assert_eq!(encoded.len(), 4 + len);
}

#[test]
fn test_decode_message() {
    let msg = ACK_OK;
    let encoded = encode_message(msg).unwrap();
    let (decoded, consumed) = decode_message(&encoded).unwrap().unwrap();
    assert_eq!(decoded, msg);
    assert_eq!(consumed, encoded.len());
}

#[test]
fn test_decode_partial_read() {
    let msg = PING;
    let encoded = encode_message(msg).unwrap();
    // Only provide first 2 bytes
    assert!(decode_message(&encoded[..2]).unwrap().is_none());
    // Provide length but not full body
    if encoded.len() > 5 {
        assert!(decode_message(&encoded[..5]).unwrap().is_none());
    }
}

#[test]
fn test_roundtrip_large_message() {
    let long_text = "x".repeat(10000);
    let msg = execute_typing(&long_text);
    let encoded = encode_message(&msg).unwrap();
    let (decoded, consumed) = decode_message(&encoded).unwrap().unwrap();
    assert_eq!(decoded, msg);
    assert_eq!(consumed, encoded.len());
}

#[test]
fn test_length_prefix_roundtrip() {
    let msg = br#"{"type":"Execute","actions":[{"Focus":"Terminal"},"Run"],"typing_speed":40,"typing_variance":15}"#;
    let encoded = encode_message(msg).unwrap();
    let (decoded, _) = decode_message(&encoded).unwrap().unwrap();
    assert_eq!(decoded, msg);
}

#[test]
fn frame_is_the_big_endian_length_then_the_payload() {
    assert_eq!(encode_message(b"").unwrap(), vec![0, 0, 0, 0]);
    assert_eq!(encode_message(b"abc").unwrap(), vec![0, 0, 0, 3, 97, 98, 99]);
    let payload = vec![7u8; 0x0102_03];
    let framed = encode_message(&payload).unwrap();
    assert_eq!(&framed[..4], &[0x00, 0x01, 0x02, 0x03]);
    assert_eq!(&framed[4..], payload.as_slice());
    assert_eq!(HEADER_LEN, 4);
}

#[test]
fn every_proper_prefix_of_a_frame_needs_more_data() {
    let framed = encode_message(PING).unwrap();
    for k in 0..framed.len() {
        assert_eq!(decode_message(&framed[..k]), Ok(None), "prefix of {k} bytes");
    }
    assert_eq!(
        decode_message(&framed),
        Ok(Some((PING, framed.len())))
    );
}

#[test]
fn frames_back_to_back_are_drained_one_by_one() {
    let first = encode_message(PING).unwrap();
    let second = encode_message(ACK_OK).unwrap();
    let mut buffer = first.clone();
    buffer.extend_from_slice(&second);
    buffer.extend_from_slice(&[0, 0]);
    let (payload, consumed) = decode_message(&buffer).unwrap().unwrap();
    assert_eq!(payload, PING);
    assert_eq!(consumed, first.len());
    buffer.drain(..consumed);
    let (payload, consumed) = decode_message(&buffer).unwrap().unwrap();
    assert_eq!(payload, ACK_OK);
    assert_eq!(consumed, second.len());
    buffer.drain(..consumed);
    assert_eq!(decode_message(&buffer), Ok(None));
    assert_eq!(buffer, vec![0, 0]);
}

#[test]
fn empty_payload_round_trips() {
    let framed = encode_message(&[]).unwrap();
    assert_eq!(decode_message(&framed), Ok(Some((&b""[..], 4))));
}

#[test]
fn payload_at_the_limit_round_trips_and_one_more_byte_is_refused() {
    let payload = vec![1u8; MAX_PAYLOAD_LEN];
    let framed = encode_message(&payload).unwrap();
    assert_eq!(&framed[..4], &[1, 0, 0, 0]);
    let (decoded, consumed) = decode_message(&framed).unwrap().unwrap();
    assert_eq!(decoded.len(), MAX_PAYLOAD_LEN);
    assert_eq!(consumed, MAX_PAYLOAD_LEN + 4);
    let too_long = vec![1u8; MAX_PAYLOAD_LEN + 1];
    assert_eq!(encode_message(&too_long), Err(CodecError::FrameTooLarge));
}

#[test]
fn declared_length_beyond_the_limit_is_a_decode_failure() {
    assert_eq!(
        decode_message(&[1, 0, 0, 1]),
        Err(CodecError::FrameTooLarge)
    );
    assert_eq!(
        decode_message(&[0xff, 0xff, 0xff, 0xff, 1, 2, 3]),
        Err(CodecError::FrameTooLarge)
    );
    assert_eq!(decode_message(&[1, 0, 0, 0]), Ok(None));
    assert_eq!(decode_message(&[0xff, 0xff, 0xff]), Ok(None));
}
