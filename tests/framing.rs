use ncp::framing::{decode_envelope, encode_envelope, read_message_length, read_message_type, ProtocolError, MAX_MESSAGE_SIZE};

#[test]
fn envelope_round_trip() {
    let payload = b"some payload".to_vec();
    let bytes = encode_envelope(9, &payload).unwrap();
    assert_eq!(bytes[0], 9);
    assert_eq!(&bytes[1..5], &[0, 0, 0, 12]);
    assert_eq!(bytes.len(), 5 + payload.len());
    let mut with_tail = bytes.clone();
    with_tail.extend_from_slice(b"next message");
    let env = decode_envelope(&with_tail).unwrap();
    assert_eq!(env.msg_type, 9);
    assert_eq!(env.payload, payload);
}

#[test]
fn empty_envelope_round_trip() {
    let bytes = encode_envelope(1, &[]).unwrap();
    assert_eq!(bytes, vec![1, 0, 0, 0, 0]);
    let env = decode_envelope(&bytes).unwrap();
    assert_eq!(env.msg_type, 1);
    assert!(env.payload.is_empty());
}

#[test]
fn oversized_length_rejected() {
    let header = [1u8, 0x00, 0x10, 0x00, 0x01];
    assert_eq!(read_message_length(&header), Err(ProtocolError::OversizedMessage));
    assert!(matches!(decode_envelope(&header), Err(ProtocolError::OversizedMessage)));
    let huge = [1u8, 0xff, 0xff, 0xff, 0xff];
    assert_eq!(read_message_length(&huge), Err(ProtocolError::OversizedMessage));
    let at_cap = [1u8, 0x00, 0x10, 0x00, 0x00];
    assert_eq!(read_message_length(&at_cap), Ok(MAX_MESSAGE_SIZE));
    let too_big = vec![0u8; MAX_MESSAGE_SIZE as usize + 1];
    assert!(matches!(encode_envelope(1, &too_big), Err(ProtocolError::OversizedMessage)));
}

#[test]
fn truncated_envelope() {
    assert_eq!(read_message_type(&[]), Err(ProtocolError::Truncated));
    assert_eq!(read_message_type(&[4]), Ok(4));
    assert_eq!(read_message_length(&[4, 0, 0]), Err(ProtocolError::Truncated));
    assert!(matches!(decode_envelope(&[4, 0, 0, 0, 3, 1, 2]), Err(ProtocolError::Truncated)));
}
