use signalr_client::protocol::{
    handshake_accepted, split_text_frame, text_completion_kind, text_delivery, text_message_key, text_message_type,
    TextCompletion,
};
use signalr_client::completer::Delivery;
use signalr_client::{HubProtocolKind, MessageType};

#[test]
fn text_frame_with_two_pings_gives_two_ping_messages() {
    let frame = "{\"type\":6}\u{1e}{\"type\":6}\u{1e}";
    let messages = split_text_frame(frame);
    assert_eq!(messages.len(), 2);
    for m in &messages {
        assert_eq!(m, "{\"type\":6}");
        assert_eq!(text_message_type(m), Some(MessageType::Ping));
    }
}

#[test]
fn empty_pieces_are_dropped() {
    let messages = split_text_frame("\u{1e}\u{1e}{}\u{1e}\u{1e}x");
    assert_eq!(messages, vec!["{}".to_string(), "x".to_string()]);
    assert_eq!(split_text_frame("").len(), 0);
}

#[test]
fn message_type_codes() {
    assert_eq!(text_message_type("{\"type\":1,\"target\":\"a\"}"), Some(MessageType::Invocation));
    assert_eq!(text_message_type("{\"type\":3}"), Some(MessageType::Completion));
    assert_eq!(text_message_type("{\"type\":9}"), Some(MessageType::Other));
    assert_eq!(text_message_type("not json"), None);
    assert_eq!(text_message_type("{}"), None);
}

#[test]
fn message_keys_by_kind() {
    let inv = "{\"type\":1,\"target\":\"callback1\",\"arguments\":[]}";
    assert_eq!(text_message_key(MessageType::Invocation, inv), Some("callback1".to_string()));
    let comp = "{\"type\":3,\"invocationId\":\"SingleEntity_0\",\"result\":1}";
    assert_eq!(text_message_key(MessageType::Completion, comp), Some("SingleEntity_0".to_string()));
    assert_eq!(text_message_key(MessageType::StreamItem, comp), Some("SingleEntity_0".to_string()));
    assert_eq!(text_message_key(MessageType::Ping, comp), None);
    assert_eq!(text_message_key(MessageType::Invocation, comp), None);
}

#[test]
fn protocol_names_and_formats() {
    assert_eq!(HubProtocolKind::Json.protocol_name(), "json");
    assert_eq!(HubProtocolKind::MessagePack.protocol_name(), "messagepack");
    assert_eq!(HubProtocolKind::Json.transfer_format(), "Text");
    assert_eq!(HubProtocolKind::MessagePack.transfer_format(), "Binary");
    assert_eq!(HubProtocolKind::default(), HubProtocolKind::Json);
}

#[test]
fn handshake_reply_is_checked() {
    assert!(handshake_accepted("{}\u{1e}"));
    assert!(!handshake_accepted("{\"error\":\"Requested protocol 'x' is not available.\"}\u{1e}"));
    assert!(!handshake_accepted(""));
    assert!(!handshake_accepted("[1]\u{1e}"));
    assert!(!handshake_accepted("{\"error\":7}\u{1e}"));
}

#[test]
fn text_completion_kinds() {
    assert_eq!(
        text_completion_kind("{\"type\":3,\"invocationId\":\"a_1\",\"error\":\"boom\"}"),
        TextCompletion::Error("boom".to_string())
    );
    assert_eq!(
        text_completion_kind("{\"type\":3,\"invocationId\":\"a_1\",\"error\":5}"),
        TextCompletion::Error("Unknown error".to_string())
    );
    assert_eq!(text_completion_kind("{\"type\":3,\"invocationId\":\"a_1\",\"result\":null}"), TextCompletion::Value);
    assert_eq!(text_completion_kind("{\"type\":3,\"invocationId\":\"a_1\"}"), TextCompletion::Void);
}

#[test]
fn text_deliveries() {
    assert!(matches!(text_delivery(&TextCompletion::Value), Delivery::Value(())));
    assert!(matches!(text_delivery(&TextCompletion::Void), Delivery::Default));
    assert!(matches!(text_delivery(&TextCompletion::Error("x".to_string())), Delivery::Cancel));
}
