use llm3d_host::engine::{EngineEvent, EngineProcess};
use llm3d_host::ipc::{
    handle_incoming_message, incoming_line, ipc_accept_failed, ipc_reader_closed,
    ipc_writer_closed, session_matches,
};
use llm3d_host::json::{JsonNumber, JsonObject, JsonValue};

type Engine = EngineProcess<u32, &'static str>;

fn s(x: &str) -> JsonValue {
    JsonValue::String(x.to_string())
}

fn msg(fields: Vec<(&str, JsonValue)>) -> JsonValue {
    let mut o = JsonObject::new();
    for (k, v) in fields {
        o.insert(k.to_string(), v);
    }
    JsonValue::Object(o)
}

fn engine_with_session(id: Option<&str>) -> Engine {
    let mut e = Engine::default();
    e.session_id = id.map(|x| x.to_string());
    e
}

#[test]
fn session_filter() {
    let active = Some("A".to_string());
    assert!(session_matches(&active, &msg(vec![("session_id", s("A"))])));
    assert!(!session_matches(&active, &msg(vec![("session_id", s("B"))])));
    assert!(!session_matches(&active, &msg(vec![])));
    assert!(!session_matches(&active, &msg(vec![("session_id", JsonValue::Bool(true))])));
    assert!(session_matches(&None, &msg(vec![("session_id", s("B"))])));
    assert!(session_matches(&None, &msg(vec![])));
    assert!(!session_matches(&active, &s("A")));
}

#[test]
fn window_ready_records_the_handle() {
    let mut e = engine_with_session(Some("A"));
    let m = msg(vec![
        ("session_id", s("A")),
        ("type", s("window_ready")),
        ("handle", JsonValue::Number(JsonNumber::PosInt(12345))),
    ]);
    let copy = msg(vec![
        ("session_id", s("A")),
        ("type", s("window_ready")),
        ("handle", JsonValue::Number(JsonNumber::PosInt(12345))),
    ]);
    let events = handle_incoming_message(&mut e, m);
    assert_eq!(events, vec![EngineEvent::WindowHandle(12345), EngineEvent::Response(copy)]);
    assert_eq!(e.window_handle, Some(12345));
}

#[test]
fn negative_handle_is_taken_by_its_bits() {
    let mut e = engine_with_session(None);
    let m = msg(vec![
        ("type", s("window_ready")),
        ("handle", JsonValue::Number(JsonNumber::NegInt(-2))),
    ]);
    let events = handle_incoming_message(&mut e, m);
    assert_eq!(events[0], EngineEvent::WindowHandle(u64::MAX - 1));
    assert_eq!(e.window_handle, Some(u64::MAX - 1));
}

#[test]
fn window_ready_without_usable_handle() {
    let mut e = engine_with_session(None);
    let m = msg(vec![("type", s("window_ready")), ("handle", s("0x1"))]);
    let events = handle_incoming_message(&mut e, m);
    assert_eq!(events.len(), 1);
    assert!(matches!(events[0], EngineEvent::Response(_)));
    assert_eq!(e.window_handle, None);
}

#[test]
fn log_messages_are_reported() {
    let mut e = engine_with_session(Some("A"));
    let m = msg(vec![("session_id", s("A")), ("type", s("log")), ("message", s("hello"))]);
    let events = handle_incoming_message(&mut e, m);
    assert_eq!(events.len(), 2);
    assert_eq!(events[0], EngineEvent::Log("hello".to_string()));
    assert_eq!(events[0].name(), "engine-log");
    assert_eq!(events[1].name(), "engine-response");
}

#[test]
fn other_sessions_are_ignored() {
    let mut e = engine_with_session(Some("A"));
    let m = msg(vec![
        ("session_id", s("B")),
        ("type", s("window_ready")),
        ("handle", JsonValue::Number(JsonNumber::PosInt(1))),
    ]);
    assert!(handle_incoming_message(&mut e, m).is_empty());
    assert_eq!(e.window_handle, None);
}

#[test]
fn lines_from_the_link() {
    let mut e = engine_with_session(None);
    assert!(incoming_line(&mut e, "   ", None).is_empty());
    assert!(incoming_line(&mut e, "", Some(msg(vec![]))).is_empty());
    assert_eq!(
        incoming_line(&mut e, "Godot Engine v4.4", None),
        vec![EngineEvent::Log("Godot Engine v4.4".to_string())]
    );
    let events = incoming_line(&mut e, "{\"type\":\"ping\"}", Some(msg(vec![("type", s("ping"))])));
    assert_eq!(events, vec![EngineEvent::Response(msg(vec![("type", s("ping"))]))]);
}

#[test]
fn link_closing_drops_the_sender() {
    let mut e = engine_with_session(Some("A"));
    e.set_command_sender("tx");
    assert_eq!(ipc_reader_closed(&mut e), EngineEvent::Log("Engine IPC reader closed".to_string()));
    assert!(e.command_tx.is_none());
    e.set_command_sender("tx");
    assert_eq!(ipc_writer_closed(&mut e), EngineEvent::Log("Engine IPC writer closed".to_string()));
    assert!(e.command_tx.is_none());
    e.set_command_sender("tx");
    assert_eq!(
        ipc_accept_failed(&mut e, "refused"),
        EngineEvent::Log("IPC accept failed: refused".to_string())
    );
    assert!(e.command_tx.is_none());
    assert_eq!(e.session_id.as_deref(), Some("A"));
}

#[test]
fn stamped_commands_pass_the_session_filter() {
    let cmd = msg(vec![("action", s("run"))]);
    let out = llm3d_host::engine::stamp_command(cmd, "engine-session-42", "r".to_string()).unwrap();
    assert!(session_matches(&Some("engine-session-42".to_string()), &out));
    assert!(!session_matches(&Some("engine-session-43".to_string()), &out));
}
