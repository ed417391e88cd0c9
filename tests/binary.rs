use signalr_client::binary::{completion_outcome, delivery_of, encode_framed_invocation, CompletionOutcome};
use signalr_client::completer::Delivery;
use signalr_client::split_framed_messages;
use signalr_client::{
    encode_invocation, parse_completion, parse_invocation, parse_stream_item, read_message_type,
    to_camel_case, to_pascal_case, Field, MessageType,
};

fn to_field(v: rmpv::Value) -> Field<rmpv::Value> {
    match v {
        rmpv::Value::Nil => Field::Nil,
        rmpv::Value::String(s) if s.as_str().is_some() => Field::Str(s.into_str().unwrap()),
        rmpv::Value::Integer(i) if i.as_u64().is_some() => Field::UInt(i.as_u64().unwrap()),
        rmpv::Value::Array(a) => Field::Array(a),
        other => Field::Other(other),
    }
}

fn decode_items(data: &[u8]) -> Vec<Field<rmpv::Value>> {
    match rmpv::decode::read_value(&mut &data[..]).unwrap() {
        rmpv::Value::Array(items) => items.into_iter().map(to_field).collect(),
        _ => panic!("not an array"),
    }
}

fn encode_value(v: &rmpv::Value) -> Vec<u8> {
    let mut buf = Vec::new();
    rmpv::encode::write_value(&mut buf, v).unwrap();
    buf
}

#[test]
fn test_read_message_type() {
    let mut buf = Vec::new();
    rmp::encode::write_array_len(&mut buf, 5).unwrap();
    rmp::encode::write_uint(&mut buf, 1).unwrap();
    assert_eq!(read_message_type(&buf).unwrap(), MessageType::Invocation);
}

#[test]
fn test_encode_decode_invocation() {
    let args = vec![
        rmpv::Value::String(rmpv::Utf8String::from("hello")),
        rmpv::Value::Integer(rmpv::Integer::from(42)),
    ];
    let encoded_args: Vec<Vec<u8>> = args.iter().map(encode_value).collect();

    let encoded = encode_invocation(
        1,
        &Vec::new(),
        &Some("inv_1".to_string()),
        "TestMethod",
        &encoded_args,
        &Vec::new(),
    );

    let raw = rmpv::decode::read_value(&mut &encoded[..]).unwrap();
    let items = raw.as_array().unwrap().clone();
    assert_eq!(items[0].as_u64().unwrap(), 1);

    let inv = parse_invocation(decode_items(&encoded)).unwrap();
    assert_eq!(inv.target, "TestMethod");
    assert_eq!(inv.invocation_id, Some("inv_1".to_string()));
    assert_eq!(inv.arguments.len(), 2);
    assert_eq!(inv.arguments[0].as_str().unwrap(), "hello");
    assert_eq!(inv.arguments[1].as_u64().unwrap(), 42);
}

#[test]
fn invocation_bytes_are_the_six_element_layout() {
    let encoded = encode_invocation(1, &Vec::new(), &None, "A", &vec![vec![0x05]], &Vec::new());
    assert_eq!(encoded, vec![0x96, 0x01, 0x80, 0xc0, 0xa1, b'A', 0x91, 0x05, 0x90]);
}

#[test]
fn invocation_with_headers_and_stream_ids() {
    let headers = vec![("k".to_string(), "v".to_string())];
    let ids = vec!["s1".to_string()];
    let encoded = encode_invocation(4, &headers, &Some("x_1".to_string()), "T", &Vec::new(), &ids);
    assert_eq!(
        encoded,
        vec![0x96, 0x04, 0x81, 0xa1, b'k', 0xa1, b'v', 0xa3, b'x', b'_', b'1', 0xa1, b'T', 0x90, 0x91, 0xa2, b's', b'1']
    );
    let items = decode_items(&encoded);
    assert_eq!(items.len(), 6);
}

#[test]
fn short_invocation_array_is_rejected() {
    let items: Vec<Field<u8>> = vec![Field::UInt(1), Field::Other(0), Field::Nil, Field::Str("t".to_string())];
    assert!(parse_invocation(items).is_err());
}

#[test]
fn invocation_fields_of_wrong_shape_are_rejected() {
    let bad_id: Vec<Field<u8>> =
        vec![Field::UInt(1), Field::Other(0), Field::UInt(3), Field::Str("t".to_string()), Field::Array(vec![])];
    assert_eq!(parse_invocation(bad_id).err(), Some("Invalid invocation_id type".to_string()));
    let bad_target: Vec<Field<u8>> = vec![Field::UInt(1), Field::Other(0), Field::Nil, Field::Nil, Field::Array(vec![])];
    assert_eq!(parse_invocation(bad_target).err(), Some("Invalid target".to_string()));
    let bad_args: Vec<Field<u8>> =
        vec![Field::UInt(1), Field::Other(0), Field::Nil, Field::Str("t".to_string()), Field::Nil];
    assert_eq!(parse_invocation(bad_args).err(), Some("Invalid arguments".to_string()));
}

#[test]
fn fire_and_forget_invocation_has_no_id() {
    let items: Vec<Field<u8>> =
        vec![Field::UInt(1), Field::Other(0), Field::Nil, Field::Str("callback1".to_string()), Field::Array(vec![7])];
    let inv = parse_invocation(items).unwrap();
    assert_eq!(inv.invocation_id, None);
    assert_eq!(inv.target, "callback1");
    assert_eq!(inv.arguments, vec![7]);
}

#[test]
fn completion_kinds() {
    let items: Vec<Field<u8>> =
        vec![Field::UInt(3), Field::Other(0), Field::Str("a_1".to_string()), Field::UInt(3), Field::Other(9)];
    let c = parse_completion(items).unwrap();
    assert_eq!(c.invocation_id, "a_1");
    assert_eq!(c.result_kind, 3);
    match completion_outcome(c) {
        CompletionOutcome::Value(Field::Other(9)) => {}
        _ => panic!("expected a value"),
    }

    let void: Vec<Field<u8>> = vec![Field::UInt(3), Field::Other(0), Field::Str("a_2".to_string()), Field::UInt(2)];
    let c = parse_completion(void).unwrap();
    assert!(c.payload.is_none());
    assert!(matches!(completion_outcome(c), CompletionOutcome::Void));

    let err: Vec<Field<u8>> = vec![
        Field::UInt(3),
        Field::Other(0),
        Field::Str("a_3".to_string()),
        Field::UInt(1),
        Field::Str("boom".to_string()),
    ];
    match completion_outcome(parse_completion(err).unwrap()) {
        CompletionOutcome::Error(m) => assert_eq!(m, "boom"),
        _ => panic!("expected an error"),
    }

    let unknown: Vec<Field<u8>> = vec![Field::UInt(3), Field::Other(0), Field::Str("a_4".to_string()), Field::UInt(9)];
    assert!(matches!(completion_outcome(parse_completion(unknown).unwrap()), CompletionOutcome::Malformed));
}

#[test]
fn completion_too_short_or_bad_kind_is_rejected() {
    let short: Vec<Field<u8>> = vec![Field::UInt(3), Field::Other(0), Field::Str("a".to_string())];
    assert_eq!(parse_completion(short).err(), Some("Completion array too short".to_string()));
    let bad_kind: Vec<Field<u8>> = vec![Field::UInt(3), Field::Other(0), Field::Str("a".to_string()), Field::Nil];
    assert_eq!(parse_completion(bad_kind).err(), Some("Invalid ResultKind".to_string()));
}

#[test]
fn stream_item_parse() {
    let items: Vec<Field<u8>> = vec![Field::UInt(2), Field::Other(0), Field::Str("s_1".to_string()), Field::Other(4)];
    let si = parse_stream_item(items).unwrap();
    assert_eq!(si.invocation_id, "s_1");
    assert!(matches!(si.item, Field::Other(4)));
    let bad: Vec<Field<u8>> = vec![Field::UInt(2), Field::Other(0), Field::Nil, Field::Other(4)];
    assert!(parse_stream_item(bad).is_err());
}

#[test]
fn read_message_type_of_non_array_fails() {
    assert!(read_message_type(&[0x06]).is_err());
    assert!(read_message_type(&[]).is_err());
    assert_eq!(read_message_type(&[0x93, 0x03, 0x80, 0xc0]).unwrap(), MessageType::Completion);
    assert_eq!(read_message_type(&[0x91, 0x07]).unwrap(), MessageType::Close);
}

#[test]
fn key_case_bridge() {
    assert_eq!(to_camel_case("Number"), "number");
    assert_eq!(to_camel_case("text"), "text");
    assert_eq!(to_camel_case(""), "");
    assert_eq!(to_pascal_case("number"), "Number");
    assert_eq!(to_pascal_case("Text"), "Text");
    assert_eq!(to_pascal_case("1abc"), "1abc");
}

#[test]
fn framed_invocation_is_prefixed_and_splits_back() {
    let args = vec![encode_value(&rmpv::Value::from("callback1"))];
    let framed = encode_framed_invocation(1, &None, "TriggerEntityCallback", &args);
    let parts = split_framed_messages(&framed).unwrap();
    assert_eq!(parts.len(), 1);
    assert_eq!(framed[0] as usize, parts[0].len());
    let inv = parse_invocation(decode_items(&parts[0])).unwrap();
    assert_eq!(inv.target, "TriggerEntityCallback");
    assert_eq!(inv.invocation_id, None);
    assert_eq!(inv.arguments[0].as_str(), Some("callback1"));
    assert_eq!(read_message_type(&parts[0]).unwrap(), MessageType::Invocation);
}

#[test]
fn message_type_in_wider_integer_markers() {
    assert_eq!(read_message_type(&[0x91, 0xcd, 0x00, 0x03]).unwrap(), MessageType::Completion);
    assert_eq!(read_message_type(&[0x91, 0xd0, 0x06]).unwrap(), MessageType::Ping);
    assert_eq!(read_message_type(&[0x91, 0xcf, 0, 0, 0, 0, 0, 0, 0, 0x02]).unwrap(), MessageType::StreamItem);
    assert!(read_message_type(&[0x91, 0xff]).is_err());
    assert!(read_message_type(&[0x91, 0xcd, 0x01, 0x00]).is_err());
    assert!(read_message_type(&[0x91, 0xc0]).is_err());
    assert_eq!(read_message_type(&[0x91, 0x63]).unwrap(), MessageType::Other);
}

#[test]
fn completion_kind_above_a_byte_is_rejected() {
    let items: Vec<Field<u8>> = vec![Field::UInt(3), Field::Other(0), Field::Str("a_1".to_string()), Field::UInt(257)];
    assert_eq!(parse_completion(items).err(), Some("Invalid ResultKind".to_string()));
}

#[test]
fn completion_deliveries() {
    use_delivery();
}

fn use_delivery() {
    let value: Vec<Field<u8>> =
        vec![Field::UInt(3), Field::Other(0), Field::Str("a".to_string()), Field::UInt(3), Field::Other(9)];
    assert!(matches!(delivery_of(completion_outcome(parse_completion(value).unwrap())), Delivery::Value(Field::Other(9))));
    let void: Vec<Field<u8>> = vec![Field::UInt(3), Field::Other(0), Field::Str("a".to_string()), Field::UInt(2)];
    assert!(matches!(delivery_of(completion_outcome(parse_completion(void).unwrap())), Delivery::Default));
    let err: Vec<Field<u8>> = vec![Field::UInt(3), Field::Other(0), Field::Str("a".to_string()), Field::UInt(1)];
    assert!(matches!(delivery_of(completion_outcome(parse_completion(err).unwrap())), Delivery::Cancel));
    let odd: Vec<Field<u8>> = vec![Field::UInt(3), Field::Other(0), Field::Str("a".to_string()), Field::UInt(7)];
    assert!(matches!(delivery_of(completion_outcome(parse_completion(odd).unwrap())), Delivery::Cancel));
}
