use mcmanager::connect::{check_handshake, connect_target, record_header_line, target_from_parts, upgrade_request, SessionError, UrlParts};

#[test]
fn target_of_websocket_url() {
    let t = connect_target("ws://127.0.0.1:25575/console").unwrap();
    assert_eq!(t.host, "127.0.0.1");
    assert_eq!(t.port, 25575);
    assert_eq!(t.path, "/console");
    assert_eq!(t.addr, "127.0.0.1:25575");
}

#[test]
fn target_uses_scheme_default_port_and_root_path() {
    let t = connect_target("ws://mc.example.com").unwrap();
    assert_eq!(t.port, 80);
    assert_eq!(t.path, "/");
    assert_eq!(t.addr, "mc.example.com:80");
    let t = connect_target("wss://mc.example.com/console").unwrap();
    assert_eq!(t.port, 443);
    assert_eq!(t.addr, "mc.example.com:443");
}

#[test]
fn invalid_url_is_reported() {
    assert!(matches!(connect_target("not a url"), Err(SessionError::InvalidUrl(_))));
    assert!(matches!(connect_target("ws://host:99999/"), Err(SessionError::InvalidUrl(_))));
}

#[test]
fn target_from_parts_fills_defaults() {
    let t = target_from_parts(UrlParts { host: None, port: None, path: String::new() });
    assert_eq!(t.host, "localhost");
    assert_eq!(t.port, 80);
    assert_eq!(t.path, "/");
    assert_eq!(t.addr, "localhost:80");
    let t = target_from_parts(UrlParts { host: Some("h".into()), port: Some(8), path: "/p".into() });
    assert_eq!(t.addr, "h:8");
    assert_eq!(t.path, "/p");
}

#[test]
fn upgrade_request_text() {
    let req = upgrade_request("/console", "localhost:80", "pw");
    assert_eq!(
        req,
        "GET /console HTTP/1.1\r\nHost: localhost:80\r\nUpgrade: websocket\r\nConnection: Upgrade\r\nSec-WebSocket-Version: 13\r\nSec-WebSocket-Key: dGhlIHNhbXBsZSBub25jZQ==\r\nSec-WebSocket-Protocol: mc-server-runner-ws-v1, pw\r\n\r\n"
    );
}

#[test]
fn header_lines_accumulate_until_blank_line() {
    let mut headers = String::new();
    assert!(!record_header_line(&mut headers, "HTTP/1.1 101 Switching Protocols\r\n").unwrap());
    assert!(!record_header_line(&mut headers, "Upgrade: websocket\r\n").unwrap());
    assert!(record_header_line(&mut headers, "\r\n").unwrap());
    assert_eq!(headers, "HTTP/1.1 101 Switching Protocols\r\nUpgrade: websocket\r\n\r\n");
}

#[test]
fn closed_connection_during_headers_ends_session() {
    let mut headers = String::from("HTTP/1.1 101 Switching Protocols\r\n");
    assert!(matches!(record_header_line(&mut headers, ""), Err(SessionError::StreamEnded)));
    assert_eq!(headers, "HTTP/1.1 101 Switching Protocols\r\n");
    assert!(matches!(record_header_line(&mut headers, "\n"), Ok(false)));
}

#[test]
fn handshake_accepts_only_101() {
    assert!(check_handshake("HTTP/1.1 101 Switching Protocols\r\n\r\n").is_ok());
    match check_handshake("HTTP/1.1 401 Unauthorized\r\n\r\n") {
        Err(SessionError::HandshakeRejected(msg)) => {
            assert_eq!(msg, "Handshake rejected by server:\nHTTP/1.1 401 Unauthorized\r\n\r\n")
        }
        other => panic!("unexpected {:?}", other),
    }
}
