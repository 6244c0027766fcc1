use mcmanager::console::{message_texts, message_texts_of, stdin_payload, submit_command, ws_url, ConsoleFrame, ConsoleState, MAX_CONSOLE_LINES};
use mcmanager::json::JsonValue;

fn to_json(v: &serde_json::Value) -> JsonValue {
    match v {
        serde_json::Value::Null => JsonValue::Null,
        serde_json::Value::Bool(b) => JsonValue::Bool(*b),
        serde_json::Value::Number(n) => JsonValue::Number(n.to_string()),
        serde_json::Value::String(s) => JsonValue::Str(s.clone()),
        serde_json::Value::Array(a) => JsonValue::Array(a.iter().map(to_json).collect()),
        serde_json::Value::Object(m) => {
            JsonValue::Object(m.iter().map(|(k, v)| (k.clone(), to_json(v))).collect())
        }
    }
}

fn parse(text: &str) -> Option<JsonValue> {
    serde_json::from_str::<serde_json::Value>(text).ok().map(|v| to_json(&v))
}

fn texts(msg: &str) -> Vec<String> {
    let own = message_texts_of(msg);
    assert_eq!(own, message_texts(msg, parse(msg)));
    own
}

#[test]
fn message_kinds() {
    assert_eq!(texts(r#"{"type":"stdout","data":"hello"}"#), vec!["hello".to_string()]);
    assert_eq!(texts(r#"{"type":"stderr","data":"oops"}"#), vec!["oops".to_string()]);
    assert_eq!(
        texts(r#"{"type":"logHistory","lines":["a",3,"b"]}"#),
        vec!["a".to_string(), "b".to_string()]
    );
    assert_eq!(texts(r#"{"type":"authFailure","reason":"bad password"}"#), vec!["[AUTH FAILURE]: bad password".to_string()]);
    assert!(texts(r#"{"type":"status","data":"x"}"#).is_empty());
    assert!(texts(r#"{"data":"x"}"#).is_empty());
    assert!(texts(r#"{"type":"stdout"}"#).is_empty());
    assert!(texts(r#"{"type":"logHistory","lines":"a"}"#).is_empty());
    assert!(texts("42").is_empty());
    assert_eq!(texts("plain text"), vec!["plain text".to_string()]);
}

#[test]
fn console_keeps_forty_lines() {
    let mut c = ConsoleState::new("lobby");
    assert_eq!(c.lines(), vec!["connecting to worker [lobby]...".to_string()]);
    assert!(!c.is_connected());
    assert_eq!(c.status_label(), "OFFLINE");
    assert_eq!(c.input_placeholder(), "Connecting...");
    c.on_connected();
    assert!(c.is_connected());
    assert_eq!(c.status_label(), "ONLINE");
    assert_eq!(c.input_placeholder(), "send commands");
    for i in 0..50 {
        let msg = format!("{{\"type\":\"stdout\",\"data\":\"line {}\\nmore {}\"}}", i, i);
        if i % 2 == 0 {
            c.on_text(&msg);
        } else {
            assert!(c.on_frame(ConsoleFrame::Text(msg)));
        }
    }
    let lines = c.lines();
    assert_eq!(lines.len(), MAX_CONSOLE_LINES);
    assert_eq!(lines[MAX_CONSOLE_LINES - 1], "more 49");
    assert_eq!(lines[0], "line 30");
    c.on_disconnected();
    assert!(!c.is_connected());
    assert_eq!(c.lines().last().unwrap(), "[System] connection lost.");
}

#[test]
fn console_reports_failed_connection() {
    let mut c = ConsoleState::new("x");
    c.on_connect_failed();
    assert_eq!(
        c.lines(),
        vec!["connecting to worker [x]...".to_string(), "[ERR]: failed to establish connection.".to_string()]
    );
}

#[test]
fn submit_trims_and_skips_empty() {
    assert_eq!(submit_command("  list \n").as_deref(), Some("list"));
    assert_eq!(submit_command("   "), None);
    assert_eq!(submit_command(""), None);
}

#[test]
fn stdin_payload_matches_serde_json() {
    for cmd in ["list", "say \"hi\"", "tp a\\b"] {
        let mut m = serde_json::Map::new();
        m.insert("type".to_string(), serde_json::Value::String("stdin".to_string()));
        m.insert("data".to_string(), serde_json::Value::String(cmd.to_string()));
        assert_eq!(stdin_payload(cmd), serde_json::Value::Object(m).to_string());
    }
    assert_eq!(stdin_payload("list"), r#"{"data":"list","type":"stdin"}"#);
}

#[test]
fn ws_url_follows_page_protocol() {
    assert_eq!(ws_url("https:", "console.example.com", "lobby"), "wss://console.example.com/ws/lobby");
    assert_eq!(ws_url("http:", "localhost:8080", "a"), "ws://localhost:8080/ws/a");
}

#[test]
fn read_loop_disconnects_on_close() {
    let mut c = ConsoleState::new("s");
    c.on_connected();
    assert!(c.on_frame(ConsoleFrame::Text("hello".to_string())));
    assert!(c.is_connected());
    assert!(!c.on_frame(ConsoleFrame::Closed));
    assert!(!c.is_connected());
    assert_eq!(c.status_label(), "OFFLINE");
    assert_eq!(
        c.lines(),
        vec![
            "connecting to worker [s]...".to_string(),
            "[System] connected to server.".to_string(),
            "hello".to_string(),
            "[System] connection lost.".to_string(),
        ]
    );
}

#[test]
fn fresh_console_state() {
    let c = ConsoleState::new("s1");
    assert_eq!(c.lines(), vec!["connecting to worker [s1]...".to_string()]);
    assert!(!c.is_connected());
    assert_eq!(c.input_text(), "");
    assert_eq!(c.heading(), "console // s1");
    assert_eq!(c.status_label(), "OFFLINE");
    assert!(c.input_disabled());
    assert_eq!(c.input_placeholder(), "Connecting...");
}

#[test]
fn submit_sends_trimmed_input_and_clears_it() {
    let mut c = ConsoleState::new("s1");
    c.on_connected();
    assert!(!c.input_disabled());
    c.set_input("  list  ".to_string());
    assert_eq!(c.submit().as_deref(), Some("list"));
    assert_eq!(c.input_text(), "");
    c.set_input("   ".to_string());
    assert_eq!(c.submit(), None);
    assert_eq!(c.input_text(), "   ");
    assert_eq!(c.lines().len(), 2);
}
