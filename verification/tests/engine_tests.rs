use llm3d_host::engine::{
    bridge_project_path, build_command_message, engine_launch_args, engine_started_message,
    frame_payload, ipc_timeout_error, ipc_wait_step, new_session_id, overlay_actions,
    overlay_command_message, session_id_from_millis,
    stamp_command, stop_outcome, window_timeout_error, window_wait_step, EngineEvent,
    EngineProcess, WaitStep,
};
use llm3d_host::json::{JsonNumber, JsonObject, JsonValue};
use llm3d_host::overlay::OverlayFrame;
use llm3d_host::path::{file_name_of, join_paths, parent_directory};

type Engine = EngineProcess<u32, &'static str>;

fn s(x: &str) -> JsonValue {
    JsonValue::String(x.to_string())
}

fn object(fields: Vec<(&str, JsonValue)>) -> JsonObject {
    let mut o = JsonObject::new();
    for (k, v) in fields {
        o.insert(k.to_string(), v);
    }
    o
}

fn field<'a>(v: &'a JsonValue, k: &str) -> Option<&'a JsonValue> {
    v.get(k)
}

fn is_session_id(id: &str) -> bool {
    match id.strip_prefix("engine-session-") {
        Some(digits) => !digits.is_empty() && digits.chars().all(|c| c.is_ascii_digit()),
        None => false,
    }
}

#[test]
fn session_ids() {
    assert_eq!(llm3d_host::engine::no_session_message(), "No engine session is active");
    assert_eq!(session_id_from_millis(1725029869123), "engine-session-1725029869123");
    assert_eq!(session_id_from_millis(0), "engine-session-0");
    assert!(is_session_id(&new_session_id()));
}

#[test]
fn default_engine_is_empty() {
    let e = Engine::default();
    assert!(e.child.is_none());
    assert!(e.project_path.is_none());
    assert!(e.window_handle.is_none());
    assert!(e.session_id.is_none());
    assert!(e.command_tx.is_none());
    let st = e.status();
    assert!(!st.running);
    assert_eq!(st.project_path, None);
}

#[test]
fn start_is_refused_while_running() {
    let mut e = Engine::default();
    let id = e.begin_start("/games/demo").unwrap();
    assert!(is_session_id(&id));
    assert_eq!(e.session_id.as_deref(), Some(id.as_str()));
    assert_eq!(e.project_path.as_deref(), Some("/games/demo"));
    e.attach_child(7);
    let st = e.status();
    assert!(st.running);
    assert_eq!(st.project_path.as_deref(), Some("/games/demo"));
    assert_eq!(e.begin_start("/games/other"), Err("Engine already running".to_string()));
    assert_eq!(e.project_path.as_deref(), Some("/games/demo"));
    assert_eq!(e.session_id.as_deref(), Some(id.as_str()));
}

#[test]
fn prepare_start_clears_runtime_state() {
    let mut e = Engine::default();
    e.window_handle = Some(5);
    e.set_command_sender("tx");
    assert_eq!(e.prepare_start("/p", "engine-session-9".to_string()), Ok(()));
    assert_eq!(e.window_handle, None);
    assert_eq!(e.command_tx, None);
    assert_eq!(e.session_id.as_deref(), Some("engine-session-9"));
}

#[test]
fn stop_and_exit_transitions() {
    let mut e = Engine::default();
    e.attach_child(1);
    e.window_handle = Some(3);
    e.set_command_sender("tx");
    assert_eq!(e.take_child(), Some(1));
    assert_eq!(e.take_child(), None);
    e.clear_runtime_state();
    assert_eq!(e.window_handle, None);
    assert_eq!(e.command_tx, None);
    assert_eq!(stop_outcome(true), Ok("Engine stopped".to_string()));
    assert_eq!(stop_outcome(false), Err("Engine not running".to_string()));

    e.attach_child(2);
    e.set_command_sender("tx");
    assert_eq!(e.engine_exited(), EngineEvent::Stopped);
    assert!(e.child.is_none());
    assert!(e.command_tx.is_none());
    assert_eq!(EngineEvent::Stopped.name(), "engine-stopped");
}

#[test]
fn command_sender_requires_link() {
    let mut e = Engine::default();
    assert_eq!(e.command_sender(), Err("Engine IPC channel is not connected".to_string()));
    e.set_command_sender("tx");
    assert_eq!(e.command_sender(), Ok(&"tx"));
    e.clear_ipc_sender();
    assert!(e.command_sender().is_err());
}

#[test]
fn stamp_command_keeps_request_id() {
    let cmd = JsonValue::Object(object(vec![("action", s("run")), ("request_id", s("r-1"))]));
    let out = stamp_command(cmd, "sess", "fresh".to_string()).unwrap();
    assert_eq!(field(&out, "request_id"), Some(&s("r-1")));
    assert_eq!(field(&out, "session_id"), Some(&s("sess")));
    assert_eq!(field(&out, "action"), Some(&s("run")));
}

#[test]
fn stamp_command_adds_request_id_and_replaces_session() {
    let cmd = JsonValue::Object(object(vec![("action", s("run")), ("session_id", s("old"))]));
    let out = stamp_command(cmd, "sess", "fresh".to_string()).unwrap();
    assert_eq!(field(&out, "request_id"), Some(&s("fresh")));
    assert_eq!(field(&out, "session_id"), Some(&s("sess")));
}

#[test]
fn stamp_command_rejects_non_objects() {
    assert_eq!(
        stamp_command(s("run"), "sess", "fresh".to_string()),
        Err("Engine command must be a JSON object".to_string())
    );
    assert_eq!(
        stamp_command(JsonValue::Array(vec![]), "sess", "f".to_string()),
        Err("Engine command must be a JSON object".to_string())
    );
}

#[test]
fn build_command_message_needs_a_session() {
    let e = Engine::default();
    let cmd = JsonValue::Object(object(vec![("action", s("run"))]));
    assert_eq!(
        build_command_message(cmd, &e),
        Err("No engine session is active".to_string())
    );
    // The session is checked before the shape of the command.
    assert_eq!(build_command_message(s("x"), &e), Err("No engine session is active".to_string()));
}

#[test]
fn build_command_message_stamps_for_the_session() {
    let mut e = Engine::default();
    e.session_id = Some("engine-session-1".to_string());
    let cmd = JsonValue::Object(object(vec![("action", s("run"))]));
    let out = build_command_message(cmd, &e).unwrap();
    assert_eq!(field(&out, "session_id"), Some(&s("engine-session-1")));
    let rid = field(&out, "request_id").and_then(|v| v.as_str()).unwrap();
    assert!(is_session_id(rid));
    assert_eq!(
        build_command_message(s("x"), &e),
        Err("Engine command must be a JSON object".to_string())
    );
}

#[test]
fn overlay_command_merges_payload() {
    let mut e = Engine::default();
    e.session_id = Some("S".to_string());
    let frame = OverlayFrame { x: 10, y: -20, width: 640, height: 480 };
    let out = overlay_command_message("set_frame", frame_payload(frame), &e).unwrap();
    assert_eq!(field(&out, "action"), Some(&s("set_frame")));
    assert_eq!(field(&out, "x"), Some(&JsonValue::Number(JsonNumber::PosInt(10))));
    assert_eq!(field(&out, "y"), Some(&JsonValue::Number(JsonNumber::NegInt(-20))));
    assert_eq!(field(&out, "width"), Some(&JsonValue::Number(JsonNumber::PosInt(640))));
    assert_eq!(field(&out, "height"), Some(&JsonValue::Number(JsonNumber::PosInt(480))));
    assert_eq!(field(&out, "session_id"), Some(&s("S")));
    assert!(field(&out, "request_id").is_some());

    let quit = overlay_command_message("quit", JsonValue::Object(JsonObject::new()), &e).unwrap();
    assert_eq!(field(&quit, "action"), Some(&s("quit")));
    let none = overlay_command_message("quit", JsonValue::Null, &Engine::default());
    assert_eq!(none, Err("No engine session is active".to_string()));
}

#[test]
fn overlay_actions_order() {
    let frame = OverlayFrame { x: 1, y: 2, width: 3, height: 4 };
    let show = overlay_actions(Some(frame), Some("show_window"));
    assert_eq!(show.len(), 2);
    assert_eq!(show[0].action, "set_frame");
    assert_eq!(show[0].payload, frame_payload(frame));
    assert_eq!(show[1].action, "show_window");
    assert_eq!(show[1].payload, JsonValue::Object(JsonObject::new()));
    let show_unknown = overlay_actions(None, Some("show_window"));
    assert_eq!(show_unknown.len(), 1);
    assert_eq!(show_unknown[0].action, "show_window");
    assert_eq!(overlay_actions(None, None).len(), 0);
    assert_eq!(overlay_actions(Some(frame), None).len(), 1);
}

#[test]
fn launch_arguments() {
    let args = engine_launch_args("/app/engine-bridge", "/games/demo", 51234, "engine-session-5");
    let expected = vec![
        "--path",
        "/app/engine-bridge",
        "--position",
        "-10000,-10000",
        "--",
        "--project-dir",
        "/games/demo",
        "--watch",
        "--ipc-host",
        "127.0.0.1",
        "--ipc-port",
        "51234",
        "--session-id",
        "engine-session-5",
    ];
    assert_eq!(args, expected);
}

#[test]
fn paths() {
    assert_eq!(parent_directory("/repo/app/src-tauri"), Some("/repo/app".to_string()));
    assert_eq!(parent_directory("/repo/app/src-tauri/"), Some("/repo/app".to_string()));
    assert_eq!(parent_directory("/repo"), Some("/".to_string()));
    assert_eq!(parent_directory("repo"), Some("".to_string()));
    assert_eq!(parent_directory("/"), None);
    assert_eq!(parent_directory(""), None);
    assert_eq!(
        bridge_project_path("/repo/app/src-tauri"),
        Some("/repo/app/engine-bridge".to_string())
    );
    assert_eq!(bridge_project_path("/repo"), Some("/engine-bridge".to_string()));
    assert_eq!(bridge_project_path("/"), None);
    assert_eq!(join_paths("/a", "b"), "/a/b");
    assert_eq!(join_paths("/a/", "b"), "/a/b");
    assert_eq!(join_paths("", "b"), "b");
    assert_eq!(join_paths("/a", "/b"), "/b");
    let samples = [
        "/repo/app/src-tauri", "/repo/app/src-tauri/", "/a/b/.", "/a/./b", "a/./b/.", "/.", "/",
        "", ".", "./", "./a", "..", "a/..", "//a", "a", "a/", "/a//b//", ".a/b", "./.",
    ];
    for p in samples {
        let expected = std::path::Path::new(p).parent().map(|x| x.to_string_lossy().to_string());
        assert_eq!(parent_directory(p), expected, "parent of {:?}", p);
        let name = std::path::Path::new(p).file_name().map(|x| x.to_string_lossy().to_string());
        assert_eq!(file_name_of(p), name, "file name of {:?}", p);
    }
    for (base, rel) in [("/x/y", "z/w"), ("rel", "q"), ("/", "t"), ("/a", ""), ("", "")] {
        let std_joined = std::path::Path::new(base).join(rel);
        assert_eq!(join_paths(base, rel), std_joined.to_string_lossy());
    }
}

#[test]
fn wait_steps() {
    assert_eq!(ipc_wait_step(0, true), WaitStep::Ready);
    assert_eq!(ipc_wait_step(49, false), WaitStep::Sleep);
    assert_eq!(ipc_wait_step(50, true), WaitStep::TimedOut);
    assert_eq!(window_wait_step(50, true), WaitStep::Ready);
    assert_eq!(window_wait_step(50, false), WaitStep::TimedOut);
    assert_eq!(window_wait_step(3, false), WaitStep::Sleep);
    assert_eq!(ipc_timeout_error(), "Timed out waiting for engine IPC connection");
    assert_eq!(window_timeout_error(), "Timed out waiting for Godot window handle");
    assert_eq!(engine_started_message(), "Engine started");
}

#[test]
fn stamping_twice_changes_nothing() {
    let cmd = JsonValue::Object(object(vec![("action", s("run")), ("n", JsonValue::Null)]));
    let once = stamp_command(cmd, "sess", "r-1".to_string()).unwrap();
    let again = stamp_command(
        JsonValue::Object(object(vec![
            ("action", field(&once, "action").unwrap().as_str().map(s).unwrap()),
            ("n", JsonValue::Null),
            ("request_id", field(&once, "request_id").unwrap().as_str().map(s).unwrap()),
            ("session_id", field(&once, "session_id").unwrap().as_str().map(s).unwrap()),
        ])),
        "sess",
        "r-2".to_string(),
    )
    .unwrap();
    assert_eq!(again, once);
}
