use signalr_client::negotiate::{authorization_header, Authentication, AvailableTransport, NegotiateResponseV0};
use signalr_client::{ConnectionConfiguration, HttpClient, HubProtocolKind};

fn response(formats: Vec<&str>) -> NegotiateResponseV0 {
    NegotiateResponseV0 {
        connection_id: "abc".to_string(),
        available_transports: vec![
            AvailableTransport { transport: "ServerSentEvents".to_string(), transfer_formats: vec!["Text".to_string()] },
            AvailableTransport {
                transport: "WebSockets".to_string(),
                transfer_formats: formats.into_iter().map(|s| s.to_string()).collect(),
            },
        ],
    }
}

#[test]
fn websockets_with_the_needed_format_is_selected() {
    let d = HttpClient::create_configuration("ws://localhost/test".to_string(), response(vec!["Text", "Binary"]), HubProtocolKind::MessagePack)
        .unwrap();
    assert_eq!(d.get_endpoint(), "ws://localhost/test");
    assert_eq!(d.get_connection_id(), "abc");
    assert_eq!(d.get_protocol_kind(), HubProtocolKind::MessagePack);
}

#[test]
fn no_matching_transport_fails() {
    assert!(HttpClient::create_configuration("ws://h/x".to_string(), response(vec!["Text"]), HubProtocolKind::MessagePack).is_none());
    assert!(HttpClient::create_configuration("ws://h/x".to_string(), response(vec![]), HubProtocolKind::Json).is_none());
}

#[test]
fn basic_and_bearer_headers() {
    assert_eq!(HttpClient::basic_auth("user".to_string(), Some("pass".to_string())), "Basic dXNlcjpwYXNz");
    assert_eq!(HttpClient::basic_auth("user".to_string(), None), "Basic dXNlcjo=");
    assert_eq!(authorization_header(&Authentication::Bearer { token: "tok".to_string() }), Some("Bearer tok".to_string()));
    assert_eq!(authorization_header(&Authentication::Anonymous), None);
}

#[test]
fn urls_follow_scheme_port_and_hub() {
    let mut c = ConnectionConfiguration::new("localhost".to_string(), "test".to_string());
    assert_eq!(c.get_web_url(), "https://localhost/test");
    assert_eq!(c.get_socket_url(), "wss://localhost/test");
    c.with_port(5220);
    c.unsecure();
    assert_eq!(c.get_web_url(), "http://localhost:5220/test");
    assert_eq!(c.get_socket_url(), "ws://localhost:5220/test");
    assert_eq!(c.get_negotiate_url(), "http://localhost:5220/test/negotiate?negotiateVersion=1");
    c.with_hub("other".to_string());
    c.secure();
    assert_eq!(c.get_socket_url(), "wss://localhost:5220/other");
    c.with_messagepack_protocol();
    assert_eq!(c.get_protocol_kind(), HubProtocolKind::MessagePack);
}
