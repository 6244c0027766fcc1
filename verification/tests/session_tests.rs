use mcmanager::connect::SessionError;
use mcmanager::json::JsonValue;
use mcmanager::log::BoundedLog;
use mcmanager::session::{command_event, session_step, ServerFrame, SessionAction, SessionEvent, HISTORY_MAX_LENGTH};

fn obj(members: &[(&str, JsonValue)]) -> JsonValue {
    JsonValue::Object(members.iter().map(|(k, v)| (k.to_string(), clone_json(v))).collect())
}

fn clone_json(v: &JsonValue) -> JsonValue {
    match v {
        JsonValue::Null => JsonValue::Null,
        JsonValue::Bool(b) => JsonValue::Bool(*b),
        JsonValue::Number(n) => JsonValue::Number(n.clone()),
        JsonValue::Str(s) => JsonValue::Str(s.clone()),
        JsonValue::Array(a) => JsonValue::Array(a.iter().map(clone_json).collect()),
        JsonValue::Object(m) => JsonValue::Object(m.iter().map(|(k, v)| (k.clone(), clone_json(v))).collect()),
    }
}

#[test]
fn text_frames_are_recorded_and_broadcast() {
    let mut h = BoundedLog::new(HISTORY_MAX_LENGTH);
    let a = session_step(&mut h, SessionEvent::Frame(ServerFrame::Text("[Server] Done".into())));
    assert!(matches!(a, SessionAction::Broadcast(ref l) if l == "[Server] Done"));
    assert_eq!(h.snapshot(), vec!["[Server] Done".to_string()]);
}

#[test]
fn control_frames_are_ignored_and_errors_end_session() {
    let mut h = BoundedLog::new(5);
    assert!(matches!(session_step(&mut h, SessionEvent::Frame(ServerFrame::Control)), SessionAction::Nothing));
    assert!(matches!(
        session_step(&mut h, SessionEvent::Frame(ServerFrame::Failed)),
        SessionAction::End(SessionError::TransportFailed)
    ));
    assert!(matches!(
        session_step(&mut h, SessionEvent::Frame(ServerFrame::Ended)),
        SessionAction::End(SessionError::StreamEnded)
    ));
    assert!(matches!(
        session_step(&mut h, SessionEvent::CommandsClosed),
        SessionAction::End(SessionError::CommandChannelClosed)
    ));
    assert_eq!(h.len(), 0);
}

#[test]
fn commands_with_data_are_echoed_and_forwarded() {
    let mut h = BoundedLog::new(5);
    let payload = r#"{"data":"list\n","type":"stdin"}"#.to_string();
    let parsed = obj(&[("data", JsonValue::Str("list\n".into())), ("type", JsonValue::Str("stdin".into()))]);
    match session_step(&mut h, SessionEvent::Command(payload.clone(), Some(parsed))) {
        SessionAction::Forward { echo, payload: sent } => {
            assert_eq!(echo, "> list\n");
            assert_eq!(sent, payload);
        }
        other => panic!("unexpected {:?}", other),
    }
    assert_eq!(h.snapshot(), vec!["> list\n".to_string()]);
}

#[test]
fn invalid_and_dataless_commands() {
    let mut h = BoundedLog::new(5);
    match session_step(&mut h, SessionEvent::Command("list".into(), None)) {
        SessionAction::RejectCommand(p) => assert_eq!(p, "list"),
        other => panic!("unexpected {:?}", other),
    }
    let parsed = obj(&[("data", JsonValue::Number("3".into()))]);
    assert!(matches!(
        session_step(&mut h, SessionEvent::Command("{\"data\":3}".into(), Some(parsed))),
        SessionAction::Nothing
    ));
    assert!(matches!(
        session_step(&mut h, SessionEvent::Command("[]".into(), Some(JsonValue::Array(vec![])))),
        SessionAction::Nothing
    ));
    assert_eq!(h.len(), 0);
}

#[test]
fn command_event_reads_the_payload_as_json() {
    let mut h = BoundedLog::new(5);
    let payload = r#"{"type":"stdin","data":"say hi\n"}"#.to_string();
    match session_step(&mut h, command_event(payload.clone())) {
        SessionAction::Forward { echo, payload: sent } => {
            assert_eq!(echo, "> say hi\n");
            assert_eq!(sent, payload);
        }
        other => panic!("unexpected {:?}", other),
    }
    match command_event("list".to_string()) {
        SessionEvent::Command(p, parsed) => {
            assert_eq!(p, "list");
            assert!(parsed.is_none());
        }
        other => panic!("unexpected {:?}", other),
    }
    assert!(matches!(session_step(&mut h, command_event("list".to_string())), SessionAction::RejectCommand(_)));
    assert!(matches!(session_step(&mut h, command_event("{\"data\":1}".to_string())), SessionAction::Nothing));
    assert_eq!(h.snapshot(), vec!["> say hi\n".to_string()]);
}
