use signalr_client::{decode_varint, encode_ping, encode_varint, frame_message, read_message_type, split_framed_messages, MessageType};

#[test]
fn test_varint_roundtrip() {
    for &value in &[0usize, 1, 53, 127, 128, 5248, 16384, 2_147_483_647] {
        let encoded = encode_varint(value);
        let (decoded, consumed) = decode_varint(&encoded).unwrap();
        assert_eq!(decoded, value);
        assert_eq!(consumed, encoded.len());
    }
}

#[test]
fn test_varint_known_values() {
    assert_eq!(encode_varint(53), vec![0x35]);
    assert_eq!(encode_varint(5248), vec![0x80, 0x29]);
}

#[test]
fn test_frame_split_roundtrip() {
    let msg1 = vec![0x91, 0x06];
    let msg2 = vec![0x92, 0x01, 0x80];

    let mut framed = frame_message(&msg1);
    framed.extend(frame_message(&msg2));

    let messages = split_framed_messages(&framed).unwrap();
    assert_eq!(messages.len(), 2);
    assert_eq!(messages[0], msg1);
    assert_eq!(messages[1], msg2);
}

#[test]
fn test_ping_encoding() {
    let ping = encode_ping();
    assert_eq!(ping, vec![0x91, 0x06]);

    let msg_type = read_message_type(&ping).unwrap();
    assert_eq!(msg_type, MessageType::Ping);
}

#[test]
fn varint_edges_of_each_length() {
    assert_eq!(encode_varint(0), vec![0x00]);
    assert_eq!(encode_varint(127), vec![0x7f]);
    assert_eq!(encode_varint(128), vec![0x80, 0x01]);
    assert_eq!(encode_varint(16384), vec![0x80, 0x80, 0x01]);
    assert_eq!(encode_varint(2_147_483_647), vec![0xff, 0xff, 0xff, 0xff, 0x07]);
}

#[test]
fn varint_decode_reads_only_the_prefix() {
    assert_eq!(decode_varint(&[0x80, 0x29, 0xaa, 0xbb]), Ok((5248, 2)));
}

#[test]
fn varint_unterminated_prefix_is_rejected() {
    assert_eq!(decode_varint(&[0x80, 0x80]), Err("Unexpected end of VarInt".to_string()));
    assert_eq!(decode_varint(&[]), Err("Unexpected end of VarInt".to_string()));
}

#[test]
fn varint_longer_than_five_bytes_is_rejected() {
    assert_eq!(decode_varint(&[0x80, 0x80, 0x80, 0x80, 0x80, 0x01]), Err("VarInt too long".to_string()));
}

#[test]
fn split_rejects_a_truncated_payload() {
    let mut framed = frame_message(&[1, 2, 3]);
    framed.pop();
    assert!(split_framed_messages(&framed).is_err());
}

#[test]
fn split_of_empty_buffer_is_empty() {
    assert_eq!(split_framed_messages(&[]).unwrap().len(), 0);
}

#[test]
fn frame_of_long_payload_has_two_byte_prefix() {
    let payload: Vec<u8> = (0..200u32).map(|i| (i % 256) as u8).collect();
    let framed = frame_message(&payload);
    assert_eq!(framed[0], 0xc8);
    assert_eq!(framed[1], 0x01);
    assert_eq!(framed.len(), 202);
    let back = split_framed_messages(&framed).unwrap();
    assert_eq!(back, vec![payload]);
}

#[test]
fn two_frames_split_back_in_order() {
    let a = vec![7u8; 130];
    let b = vec![9u8, 8, 7];
    let mut framed = frame_message(&a);
    framed.extend(frame_message(&b));
    assert_eq!(split_framed_messages(&framed).unwrap(), vec![a, b]);
}
