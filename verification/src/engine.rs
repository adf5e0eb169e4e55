//! The engine session: what the host knows of the running Godot engine, the
//! transitions that starting, stopping and the IPC link make to it, and the
//! command messages sent to the engine.
use vstd::prelude::*;
use vstd::string::*;

use crate::json::{entries_map, i32_number, keys_distinct, string_value, JsonObject, JsonValue};
use crate::overlay::OverlayFrame;
use crate::path::{join_path, join_paths, parent_dir, parent_directory};
use crate::text::{decimal, decimal_string, lemma_decimal_injective, opt_string_view, string_views};

verus! {

/// Whether the engine runs, and for which game project.
pub struct EngineStatus {
    pub running: bool,
    pub project_path: Option<String>,
}

/// The host's record of the engine: the child process (`C`), the game
/// project, the engine window's handle, the active session and the sender of
/// the IPC link (`T`).
pub struct EngineProcess<C, T> {
    pub child: Option<C>,
    pub project_path: Option<String>,
    pub window_handle: Option<u64>,
    pub session_id: Option<String>,
    pub command_tx: Option<T>,
}

/// A session identifier made at `ms` milliseconds after the Unix epoch.
pub open spec fn session_id_text(ms: nat) -> Seq<char> {
    "engine-session-"@ + decimal(ms)
}

/// `s` is a session identifier made at some instant.
pub open spec fn is_session_id(s: Seq<char>) -> bool {
    exists|ms: u128| s == #[trigger] session_id_text(ms as nat)
}

/// Milliseconds since the Unix epoch, read from the system clock:
/// `SystemTime::now().duration_since(UNIX_EPOCH)`, 0 when the clock reads
/// before the epoch, in whole milliseconds. Nothing is stated of the value:
/// it is the time.
#[verifier::external_body]
fn unix_time_millis() -> u128 {
    std::time::SystemTime::now().duration_since(std::time::UNIX_EPOCH).unwrap_or_default().as_millis()
}

/// The session identifier for an instant `ms` milliseconds after the epoch.
pub fn session_id_from_millis(ms: u128) -> (r: String)
    ensures
        r@ == session_id_text(ms as nat),
{
    String::from_str("engine-session-").concat(decimal_string(ms).as_str())
}

/// A fresh session (or request) identifier, made from the current time.
pub fn new_session_id() -> (r: String)
    ensures
        is_session_id(r@),
{
    let ms = unix_time_millis();
    let r = session_id_from_millis(ms);
    assert(r@ == session_id_text(ms as nat));
    r
}

/// The key under which a command carries its request identifier.
pub open spec fn request_id_key() -> Seq<char> {
    "request_id"@
}

/// The key under which a command carries the session identifier.
pub open spec fn session_id_key() -> Seq<char> {
    "session_id"@
}

/// `out` is the command `cmd` stamped for `session`: its other fields kept,
/// its `request_id` kept or, when it has none, set to `fresh_id`, and its
/// `session_id` set to `session`.
pub open spec fn stamps_command(
    cmd: Map<Seq<char>, JsonValue>,
    out: Map<Seq<char>, JsonValue>,
    session: Seq<char>,
    fresh_id: Seq<char>,
) -> bool {
    &&& out.dom() == cmd.dom().insert(request_id_key()).insert(session_id_key())
    &&& forall|k: Seq<char>|
        #![trigger out[k]]
        cmd.contains_key(k) && k != request_id_key() && k != session_id_key() ==> out[k] == cmd[k]
    &&& string_value(out[session_id_key()]) == Some(session)
    &&& if cmd.contains_key(request_id_key()) {
        out[request_id_key()] == cmd[request_id_key()]
    } else {
        string_value(out[request_id_key()]) == Some(fresh_id)
    }
}

/// The error for a command when no session is active.
pub open spec fn no_session_error() -> Seq<char> {
    "No engine session is active"@
}

/// The error for a command that is not a JSON object.
pub open spec fn not_object_error() -> Seq<char> {
    "Engine command must be a JSON object"@
}

/// Stamps a command object for `session_id`, with `fresh_request_id` as its
/// request identifier when it has none.
pub fn stamp_command(command: JsonValue, session_id: &str, fresh_request_id: String) -> (r: Result<
    JsonValue,
    String,
>)
    ensures
        match command {
            JsonValue::Object(cmd) => match r {
                Ok(JsonValue::Object(out)) => stamps_command(
                    cmd@,
                    out@,
                    session_id@,
                    fresh_request_id@,
                ),
                _ => false,
            },
            _ => r matches Err(e) && e@ == not_object_error(),
        },
{
    let mut request = match command {
        JsonValue::Object(map) => map,
        _ => {
            return Err(String::from_str("Engine command must be a JSON object"));
        },
    };
    let ghost cmd = request@;
    proof {
        reveal_strlit("request_id");
        reveal_strlit("session_id");
        assert(request_id_key()[0] != session_id_key()[0]);
    }
    if !request.contains_key("request_id") {
        request.insert(String::from_str("request_id"), JsonValue::String(fresh_request_id));
    }
    let ghost mid = request@;
    proof {
        if cmd.contains_key(request_id_key()) {
            assert(mid == cmd);
        } else {
            assert(string_value(mid[request_id_key()]) == Some(fresh_request_id@));
        }
    }
    let session = String::from_str(session_id);
    let ghost session_view = session@;
    request.insert(String::from_str("session_id"), JsonValue::String(session));
    proof {
        let out = request@;
        assert(out == mid.insert(session_id_key(), out[session_id_key()]));
        assert(string_value(out[session_id_key()]) == Some(session_view));
        assert(out.dom() =~= cmd.dom().insert(request_id_key()).insert(session_id_key()));
        assert(out[request_id_key()] == mid[request_id_key()]);
    }
    Ok(JsonValue::Object(request))
}

/// Stamps a command for the active session, at the instant `now_ms`: a
/// command without a `request_id` gets the identifier made from `now_ms`.
pub fn build_command_message_at<C, T>(
    command: JsonValue,
    state: &EngineProcess<C, T>,
    now_ms: u128,
) -> (r: Result<JsonValue, String>)
    ensures
        match state.session_id {
            None => r matches Err(e) && e@ == no_session_error(),
            Some(s) => match command {
                JsonValue::Object(cmd) => match r {
                    Ok(JsonValue::Object(out)) => stamps_command(
                        cmd@,
                        out@,
                        s@,
                        session_id_text(now_ms as nat),
                    ),
                    _ => false,
                },
                _ => r matches Err(e) && e@ == not_object_error(),
            },
        },
{
    let session_id = match &state.session_id {
        Some(s) => s.clone(),
        None => {
            return Err(String::from_str("No engine session is active"));
        },
    };
    let needs_id = match &command {
        JsonValue::Object(map) => !map.contains_key("request_id"),
        _ => false,
    };
    let fresh = if needs_id {
        session_id_from_millis(now_ms)
    } else {
        String::new()
    };
    let ghost fresh_view = fresh@;
    let ghost g_command = command;
    let r = stamp_command(command, session_id.as_str(), fresh);
    let ghost g_r = r;
    proof {
        if let JsonValue::Object(cmd) = g_command {
            if let Ok(JsonValue::Object(out)) = g_r {
                if !cmd@.contains_key(request_id_key()) {
                    assert(fresh_view == session_id_text(now_ms as nat));
                }
                assert(stamps_command(cmd@, out@, session_id@, session_id_text(now_ms as nat)));
            }
        }
    }
    r
}

/// Stamps a command for the active session (`build_command_message`): a
/// command without a `request_id` gets a fresh one made from the time.
pub fn build_command_message<C, T>(command: JsonValue, state: &EngineProcess<C, T>) -> (r: Result<
    JsonValue,
    String,
>)
    ensures
        match state.session_id {
            None => r matches Err(e) && e@ == no_session_error(),
            Some(s) => match command {
                JsonValue::Object(cmd) => match r {
                    Ok(JsonValue::Object(out)) => exists|fresh: Seq<char>|
                        is_session_id(fresh) && stamps_command(cmd@, out@, s@, fresh),
                    _ => false,
                },
                _ => r matches Err(e) && e@ == not_object_error(),
            },
        },
{
    let now_ms = unix_time_millis();
    let r = build_command_message_at(command, state, now_ms);
    assert(is_session_id(session_id_text(now_ms as nat)));
    r
}

/// Identifiers made at distinct instants differ: two starts (or two stamped
/// commands) at different clock readings never share an identifier.
pub proof fn law_distinct_instants_distinct_ids(t1: nat, t2: nat)
    requires
        t1 != t2,
    ensures
        session_id_text(t1) != session_id_text(t2),
{
    let p = "engine-session-"@;
    let a = session_id_text(t1);
    let b = session_id_text(t2);
    if a == b {
        assert(a.subrange(p.len() as int, a.len() as int) =~= decimal(t1));
        assert(b.subrange(p.len() as int, b.len() as int) =~= decimal(t2));
        lemma_decimal_injective(t1, t2);
    }
}

/// Commands without a `request_id`, stamped at two different instants, get
/// different request identifiers, so each reply can be matched to its
/// request.
pub proof fn law_fresh_request_ids_differ(
    cmd: Map<Seq<char>, JsonValue>,
    out1: Map<Seq<char>, JsonValue>,
    out2: Map<Seq<char>, JsonValue>,
    session: Seq<char>,
    t1: nat,
    t2: nat,
)
    requires
        !cmd.contains_key(request_id_key()),
        stamps_command(cmd, out1, session, session_id_text(t1)),
        stamps_command(cmd, out2, session, session_id_text(t2)),
        t1 != t2,
    ensures
        out1[request_id_key()] != out2[request_id_key()],
        string_value(out1[request_id_key()]) == Some(session_id_text(t1)),
        string_value(out2[request_id_key()]) == Some(session_id_text(t2)),
{
    law_distinct_instants_distinct_ids(t1, t2);
}

/// `out` is the overlay command `action` with the fields of `payload`
/// merged in, stamped for `session` (`fresh_id` as request identifier when
/// the payload has none).
pub open spec fn overlay_message(
    action: Seq<char>,
    payload: Map<Seq<char>, JsonValue>,
    out: Map<Seq<char>, JsonValue>,
    session: Seq<char>,
    fresh_id: Seq<char>,
) -> bool {
    &&& out.dom() == payload.dom().insert("action"@).insert(request_id_key()).insert(
        session_id_key(),
    )
    &&& forall|k: Seq<char>|
        #![trigger out[k]]
        payload.contains_key(k) && k != request_id_key() && k != session_id_key() ==> out[k]
            == payload[k]
    &&& !payload.contains_key("action"@) ==> string_value(out["action"@]) == Some(action)
    &&& string_value(out[session_id_key()]) == Some(session)
    &&& if payload.contains_key(request_id_key()) {
        out[request_id_key()] == payload[request_id_key()]
    } else {
        string_value(out[request_id_key()]) == Some(fresh_id)
    }
}

/// The fields that a payload contributes: those of an object, none otherwise.
pub open spec fn payload_fields(payload: JsonValue) -> Map<Seq<char>, JsonValue> {
    match payload {
        JsonValue::Object(p) => p@,
        _ => Map::empty(),
    }
}

/// The overlay command `{"action": action, ..payload}` stamped for the active
/// session at the instant `now_ms`.
pub fn overlay_command_message_at<C, T>(
    action: &str,
    payload: JsonValue,
    state: &EngineProcess<C, T>,
    now_ms: u128,
) -> (r: Result<JsonValue, String>)
    ensures
        match state.session_id {
            None => r matches Err(e) && e@ == no_session_error(),
            Some(s) => match r {
                Ok(JsonValue::Object(out)) => overlay_message(
                    action@,
                    payload_fields(payload),
                    out@,
                    s@,
                    session_id_text(now_ms as nat),
                ),
                _ => false,
            },
        },
{
    let ghost fields = payload_fields(payload);
    let mut obj = JsonObject::new();
    let act = String::from_str(action);
    let ghost act_view = act@;
    obj.insert(String::from_str("action"), JsonValue::String(act));
    if let JsonValue::Object(map) = payload {
        let entries = map.into_entries();
        let ghost es = entries@;
        let mut i: usize = 0;
        for entry in it: entries
            invariant
                es == it.seq(),
                keys_distinct(es),
                entries_map(es) == fields,
                obj@.dom() == entries_map(es.take(it.index() as int)).dom().insert("action"@),
                forall|k: Seq<char>|
                    #![trigger obj@[k]]
                    entries_map(es.take(it.index() as int)).contains_key(k) ==> obj@[k]
                        == entries_map(es.take(it.index() as int))[k],
                !entries_map(es.take(it.index() as int)).contains_key("action"@) ==> string_value(
                    obj@["action"@],
                ) == Some(action@),
        {
            let ghost before = es.take(it.index() as int);
            let (k, v) = entry;
            obj.insert(k, v);
            proof {
                let after = es.take(it.index() + 1);
                assert(after.drop_last() =~= before);
                assert(after.last() == entry);
            }
        }
        proof {
            assert(es.take(es.len() as int) =~= es);
        }
    }
    proof {
        assert(obj@.dom() =~= fields.dom().insert("action"@));
    }
    let ghost g_obj = obj;
    let r = build_command_message_at(JsonValue::Object(obj), state, now_ms);
    let ghost g_r = r;
    let ghost g_session = state.session_id;
    proof {
        lemma_protocol_keys_distinct();
        if let Some(s) = g_session {
            if let Ok(JsonValue::Object(out)) = g_r {
                let fresh = session_id_text(now_ms as nat);
                assert(out@.dom() =~= fields.dom().insert("action"@).insert(
                    request_id_key(),
                ).insert(session_id_key()));
                assert forall|k: Seq<char>|
                    fields.contains_key(k) && k != request_id_key() && k != session_id_key()
                        implies #[trigger] out@[k] == fields[k] by {
                    assert(g_obj@.contains_key(k));
                }
                if !fields.contains_key("action"@) {
                    assert(out@["action"@] == g_obj@["action"@]);
                }
                if fields.contains_key(request_id_key()) {
                    assert(g_obj@.contains_key(request_id_key()));
                } else {
                    assert(!g_obj@.contains_key(request_id_key()));
                }
                assert(overlay_message(action@, fields, out@, s@, fresh));
            }
        }
    }
    r
}

/// The overlay command `{"action": action, ..payload}` stamped for the active
/// session (the message that `send_overlay_command` sends), with a fresh
/// request identifier made from the time when the payload has none.
pub fn overlay_command_message<C, T>(
    action: &str,
    payload: JsonValue,
    state: &EngineProcess<C, T>,
) -> (r: Result<JsonValue, String>)
    ensures
        match state.session_id {
            None => r matches Err(e) && e@ == no_session_error(),
            Some(s) => match r {
                Ok(JsonValue::Object(out)) => exists|fresh: Seq<char>|
                    is_session_id(fresh) && overlay_message(
                        action@,
                        payload_fields(payload),
                        out@,
                        s@,
                        fresh,
                    ),
                _ => false,
            },
        },
{
    let now_ms = unix_time_millis();
    let r = overlay_command_message_at(action, payload, state, now_ms);
    assert(is_session_id(session_id_text(now_ms as nat)));
    r
}

/// The protocol's keys `action`, `request_id` and `session_id` differ.
proof fn lemma_protocol_keys_distinct()
    ensures
        "action"@ != request_id_key(),
        "action"@ != session_id_key(),
        request_id_key() != session_id_key(),
{
    reveal_strlit("action");
    reveal_strlit("request_id");
    reveal_strlit("session_id");
    assert("action"@[0] != request_id_key()[0]);
    assert("action"@[0] != session_id_key()[0]);
    assert(request_id_key()[0] != session_id_key()[0]);
}

/// The `set_frame` payload for an overlay frame.
pub fn frame_payload(frame: OverlayFrame) -> (r: JsonValue)
    ensures
        r matches JsonValue::Object(o) && o@ == frame_fields(frame),
        r matches JsonValue::Object(o) && o@ == map![
            "x"@ => i32_number(frame.x),
            "y"@ => i32_number(frame.y),
            "width"@ => i32_number(frame.width),
            "height"@ => i32_number(frame.height),
        ],
{
    let mut o = JsonObject::new();
    o.insert(String::from_str("x"), JsonValue::from_i32(frame.x));
    o.insert(String::from_str("y"), JsonValue::from_i32(frame.y));
    o.insert(String::from_str("width"), JsonValue::from_i32(frame.width));
    o.insert(String::from_str("height"), JsonValue::from_i32(frame.height));
    assert(o@ =~= frame_fields(frame));
    JsonValue::Object(o)
}

/// The arguments the engine binary is launched with.
pub open spec fn launch_args(
    bridge_path: Seq<char>,
    game_project_path: Seq<char>,
    ipc_port: u16,
    session_id: Seq<char>,
) -> Seq<Seq<char>> {
    seq![
        "--path"@,
        bridge_path,
        "--position"@,
        "-10000,-10000"@,
        "--"@,
        "--project-dir"@,
        game_project_path,
        "--watch"@,
        "--ipc-host"@,
        "127.0.0.1"@,
        "--ipc-port"@,
        decimal(ipc_port as nat),
        "--session-id"@,
        session_id,
    ]
}

/// The command line of the engine: the bridge project, an off-screen start
/// position, then the game project, watch mode and the IPC endpoint.
pub fn engine_launch_args(
    bridge_path: &str,
    game_project_path: &str,
    ipc_port: u16,
    session_id: &str,
) -> (r: Vec<String>)
    ensures
        string_views(r@) == launch_args(bridge_path@, game_project_path@, ipc_port, session_id@),
{
    let mut v: Vec<String> = Vec::new();
    v.push(String::from_str("--path"));
    v.push(String::from_str(bridge_path));
    v.push(String::from_str("--position"));
    v.push(String::from_str("-10000,-10000"));
    v.push(String::from_str("--"));
    v.push(String::from_str("--project-dir"));
    v.push(String::from_str(game_project_path));
    v.push(String::from_str("--watch"));
    v.push(String::from_str("--ipc-host"));
    v.push(String::from_str("127.0.0.1"));
    v.push(String::from_str("--ipc-port"));
    v.push(decimal_string(ipc_port as u128));
    v.push(String::from_str("--session-id"));
    v.push(String::from_str(session_id));
    proof {
        assert(string_views(v@) =~= launch_args(
            bridge_path@,
            game_project_path@,
            ipc_port,
            session_id@,
        ));
    }
    v
}

/// What a poll for a condition decides.
#[derive(Clone, Copy, Debug, PartialEq, Eq)]
pub enum WaitStep {
    /// The condition holds: go on.
    Ready,
    /// Sleep for the poll interval, then poll again.
    Sleep,
    /// Give up.
    TimedOut,
}

/// How often a condition is polled before giving up.
pub const WAIT_ATTEMPTS: u32 = 50;

/// The pause between two polls, in milliseconds.
pub const WAIT_INTERVAL_MS: u64 = 100;

/// The poll for the IPC link (`wait_for_ipc_connection`): up to 50 checks,
/// each failed one followed by a sleep, then a time-out.
pub fn ipc_wait_step(attempt: u32, connected: bool) -> (r: WaitStep)
    ensures
        r == (if attempt >= WAIT_ATTEMPTS {
            WaitStep::TimedOut
        } else if connected {
            WaitStep::Ready
        } else {
            WaitStep::Sleep
        }),
{
    if attempt >= WAIT_ATTEMPTS {
        WaitStep::TimedOut
    } else if connected {
        WaitStep::Ready
    } else {
        WaitStep::Sleep
    }
}

/// The poll for the engine window's handle (`embed_engine_window`): 50
/// checks each followed by a sleep, and one last check after them.
pub fn window_wait_step(attempt: u32, known: bool) -> (r: WaitStep)
    ensures
        r == (if known {
            WaitStep::Ready
        } else if attempt >= WAIT_ATTEMPTS {
            WaitStep::TimedOut
        } else {
            WaitStep::Sleep
        }),
{
    if known {
        WaitStep::Ready
    } else if attempt >= WAIT_ATTEMPTS {
        WaitStep::TimedOut
    } else {
        WaitStep::Sleep
    }
}

/// The error when the IPC link does not come up.
pub fn ipc_timeout_error() -> (r: String)
    ensures
        r@ == "Timed out waiting for engine IPC connection"@,
{
    String::from_str("Timed out waiting for engine IPC connection")
}

/// The error when the engine window's handle does not arrive.
pub fn window_timeout_error() -> (r: String)
    ensures
        r@ == "Timed out waiting for Godot window handle"@,
{
    String::from_str("Timed out waiting for Godot window handle")
}

/// The reply to a successful start.
pub fn engine_started_message() -> (r: String)
    ensures
        r@ == "Engine started"@,
{
    String::from_str("Engine started")
}

/// The reply to a stop request: whether there was an engine to stop.
pub fn stop_outcome(was_running: bool) -> (r: Result<String, String>)
    ensures
        was_running ==> (r matches Ok(m) && m@ == "Engine stopped"@),
        !was_running ==> (r matches Err(e) && e@ == "Engine not running"@),
{
    if was_running {
        Ok(String::from_str("Engine stopped"))
    } else {
        Err(String::from_str("Engine not running"))
    }
}

/// The error for a request that needs a session while none is active.
pub fn no_session_message() -> (r: String)
    ensures
        r@ == no_session_error(),
{
    String::from_str("No engine session is active")
}

/// The error when the IPC link refuses a message.
pub fn ipc_send_error() -> (r: String)
    ensures
        r@ == "Engine IPC send failed"@,
{
    String::from_str("Engine IPC send failed")
}

/// The error for a start request while an engine runs.
pub open spec fn already_running_error() -> Seq<char> {
    "Engine already running"@
}

/// The error for a send while the IPC link is down.
pub open spec fn not_connected_error() -> Seq<char> {
    "Engine IPC channel is not connected"@
}

/// The record is consistent: a running engine has a session and a project.
pub open spec fn running_has_session<C, T>(e: EngineProcess<C, T>) -> bool {
    e.child is Some ==> e.session_id is Some && e.project_path is Some
}

/// A change of the record keeps it consistent and never clears the session
/// or the project once they are recorded.
pub open spec fn keeps_session<C, T>(pre: EngineProcess<C, T>, post: EngineProcess<C, T>) -> bool {
    &&& running_has_session(pre) ==> running_has_session(post)
    &&& pre.session_id is Some ==> post.session_id is Some
    &&& pre.project_path is Some ==> post.project_path is Some
}

/// Along any run of changes that each keep the session (every mutating
/// operation of `EngineProcess` and of the IPC handlers does), starting with
/// no engine, a running engine always has a session and a project, and once
/// a session or a project is recorded it stays recorded.
pub proof fn law_running_engine_has_session<C, T>(trace: Seq<EngineProcess<C, T>>)
    requires
        trace.len() > 0,
        trace[0].child is None,
        forall|i: int| 0 <= i < trace.len() - 1 ==> #[trigger] keeps_session(trace[i], trace[i + 1]),
    ensures
        forall|i: int| 0 <= i < trace.len() ==> running_has_session(#[trigger] trace[i]),
        forall|i: int, j: int|
            #![trigger trace[i], trace[j]]
            0 <= i <= j < trace.len() && trace[i].session_id is Some ==> trace[j].session_id is Some,
        forall|i: int, j: int|
            #![trigger trace[i], trace[j]]
            0 <= i <= j < trace.len() && trace[i].project_path is Some ==> trace[j].project_path
                is Some,
    decreases trace.len(),
{
    if trace.len() > 1 {
        let t = trace.drop_last();
        assert forall|i: int| 0 <= i < t.len() - 1 implies #[trigger] keeps_session(t[i], t[i + 1]) by {
            assert(t[i] == trace[i] && t[i + 1] == trace[i + 1]);
            assert(keeps_session(trace[i], trace[i + 1]));
        }
        law_running_engine_has_session(t);
        let n = trace.len() - 1;
        let m = n - 1;
        assert(keeps_session(trace[m], trace[m + 1]));
        assert(m + 1 == n);
        assert(running_has_session(t[n - 1]));
        assert forall|i: int| 0 <= i < trace.len() implies running_has_session(#[trigger] trace[i]) by {
            if i < n {
                assert(trace[i] == t[i]);
            }
        }
        assert forall|i: int, j: int|
            #![trigger trace[i], trace[j]]
            0 <= i <= j < trace.len() && trace[i].session_id is Some implies trace[j].session_id is Some by {
            if j < n {
                assert(trace[i] == t[i] && trace[j] == t[j]);
            } else if i < n {
                assert(trace[i] == t[i] && trace[n - 1] == t[n - 1]);
                assert(t[n - 1].session_id is Some);
            }
        }
        assert forall|i: int, j: int|
            #![trigger trace[i], trace[j]]
            0 <= i <= j < trace.len() && trace[i].project_path is Some implies trace[j].project_path is Some by {
            if j < n {
                assert(trace[i] == t[i] && trace[j] == t[j]);
            } else if i < n {
                assert(trace[i] == t[i] && trace[n - 1] == t[n - 1]);
                assert(t[n - 1].project_path is Some);
            }
        }
    }
}

impl<C, T> Default for EngineProcess<C, T> {
    /// No engine, no project, no window, no session, no link.
    fn default() -> (r: Self)
        ensures
            r.child is None,
            r.project_path is None,
            r.window_handle is None,
            r.session_id is None,
            r.command_tx is None,
            running_has_session(r),
    {
        EngineProcess {
            child: None,
            project_path: None,
            window_handle: None,
            session_id: None,
            command_tx: None,
        }
    }
}

impl<C, T> EngineProcess<C, T> {
    /// Forgets the engine window and the IPC link (`clear_runtime_state`).
    pub fn clear_runtime_state(&mut self)
        ensures
            keeps_session(*old(self), *final(self)),
            final(self).window_handle is None,
            final(self).command_tx is None,
            final(self).child == old(self).child,
            final(self).project_path == old(self).project_path,
            final(self).session_id == old(self).session_id,
    {
        self.window_handle = None;
        self.command_tx = None;
    }

    /// Drops the IPC sender (`clear_ipc_sender`).
    pub fn clear_ipc_sender(&mut self)
        ensures
            keeps_session(*old(self), *final(self)),
            final(self).command_tx is None,
            final(self).child == old(self).child,
            final(self).project_path == old(self).project_path,
            final(self).window_handle == old(self).window_handle,
            final(self).session_id == old(self).session_id,
    {
        self.command_tx = None;
    }

    /// Records the sender of a newly accepted IPC link.
    pub fn set_command_sender(&mut self, tx: T)
        ensures
            keeps_session(*old(self), *final(self)),
            final(self).command_tx == Some(tx),
            final(self).child == old(self).child,
            final(self).project_path == old(self).project_path,
            final(self).window_handle == old(self).window_handle,
            final(self).session_id == old(self).session_id,
    {
        self.command_tx = Some(tx);
    }

    /// Prepares a start with a given session identifier: refused while an
    /// engine runs; otherwise records the project, forgets the window and
    /// the link, and makes `session_id` the active session.
    pub fn prepare_start(&mut self, game_project_path: &str, session_id: String) -> (r: Result<
        (),
        String,
    >)
        ensures
            keeps_session(*old(self), *final(self)),
            old(self).child is Some ==> (r matches Err(e) && e@ == already_running_error()
                && *final(self) == *old(self)),
            old(self).child is None ==> {
                &&& r is Ok
                &&& final(self).child is None
                &&& opt_string_view(final(self).project_path) == Some(game_project_path@)
                &&& final(self).window_handle is None
                &&& final(self).command_tx is None
                &&& final(self).session_id == Some(session_id)
            },
    {
        if self.child.is_some() {
            return Err(String::from_str("Engine already running"));
        }
        self.project_path = Some(String::from_str(game_project_path));
        self.clear_runtime_state();
        self.session_id = Some(session_id);
        Ok(())
    }

    /// The first half of `start_engine` at the instant `now_ms`: refused
    /// while an engine runs; otherwise records the project, forgets the
    /// window and the link, and opens the session made from `now_ms`, whose
    /// identifier it returns.
    pub fn begin_start_at(&mut self, game_project_path: &str, now_ms: u128) -> (r: Result<
        String,
        String,
    >)
        ensures
            keeps_session(*old(self), *final(self)),
            old(self).child is Some ==> (r matches Err(e) && e@ == already_running_error()
                && *final(self) == *old(self)),
            old(self).child is None ==> (r matches Ok(id) && {
                &&& id@ == session_id_text(now_ms as nat)
                &&& final(self).child is None
                &&& opt_string_view(final(self).project_path) == Some(game_project_path@)
                &&& final(self).window_handle is None
                &&& final(self).command_tx is None
                &&& opt_string_view(final(self).session_id) == Some(id@)
            }),
    {
        if self.child.is_some() {
            return Err(String::from_str("Engine already running"));
        }
        let id = session_id_from_millis(now_ms);
        let kept = id.clone();
        let _ = self.prepare_start(game_project_path, kept);
        Ok(id)
    }

    /// The first half of `start_engine`: refused while an engine runs;
    /// otherwise records the project, forgets the window and the link, and
    /// opens a fresh session, made from the current time, whose identifier
    /// it returns.
    pub fn begin_start(&mut self, game_project_path: &str) -> (r: Result<String, String>)
        ensures
            keeps_session(*old(self), *final(self)),
            old(self).child is Some ==> (r matches Err(e) && e@ == already_running_error()
                && *final(self) == *old(self)),
            old(self).child is None ==> (r matches Ok(id) && {
                &&& is_session_id(id@)
                &&& final(self).child is None
                &&& opt_string_view(final(self).project_path) == Some(game_project_path@)
                &&& final(self).window_handle is None
                &&& final(self).command_tx is None
                &&& opt_string_view(final(self).session_id) == Some(id@)
            }),
    {
        let now_ms = unix_time_millis();
        let r = self.begin_start_at(game_project_path, now_ms);
        assert(is_session_id(session_id_text(now_ms as nat)));
        r
    }

    /// Records the spawned engine process; an engine is attached only once a
    /// start has opened a session for a project.
    pub fn attach_child(&mut self, child: C)
        requires
            old(self).session_id is Some,
            old(self).project_path is Some,
        ensures
            keeps_session(*old(self), *final(self)),
            running_has_session(*final(self)),
            final(self).child == Some(child),
            final(self).project_path == old(self).project_path,
            final(self).window_handle == old(self).window_handle,
            final(self).session_id == old(self).session_id,
            final(self).command_tx == old(self).command_tx,
    {
        self.child = Some(child);
    }

    /// Takes the engine process out of the record, leaving none.
    pub fn take_child(&mut self) -> (r: Option<C>)
        ensures
            keeps_session(*old(self), *final(self)),
            r == old(self).child,
            final(self).child is None,
            final(self).project_path == old(self).project_path,
            final(self).window_handle == old(self).window_handle,
            final(self).session_id == old(self).session_id,
            final(self).command_tx == old(self).command_tx,
    {
        self.child.take()
    }

    /// The engine's output ended: the process is gone, and so are its window
    /// and link. Returns the event that reports it.
    pub fn engine_exited(&mut self) -> (r: EngineEvent)
        ensures
            keeps_session(*old(self), *final(self)),
            r == EngineEvent::Stopped,
            final(self).child is None,
            final(self).window_handle is None,
            final(self).command_tx is None,
            final(self).project_path == old(self).project_path,
            final(self).session_id == old(self).session_id,
    {
        self.child = None;
        self.clear_runtime_state();
        EngineEvent::Stopped
    }

    /// Whether an engine runs, and its project (`engine_status`).
    pub fn status(&self) -> (r: EngineStatus)
        ensures
            r.running == self.child is Some,
            opt_string_view(r.project_path) == opt_string_view(self.project_path),
    {
        EngineStatus {
            running: self.child.is_some(),
            project_path: match &self.project_path {
                Some(p) => Some(p.clone()),
                None => None,
            },
        }
    }

    /// The sender of the IPC link, or the error `send_message` gives when
    /// the link is down.
    pub fn command_sender(&self) -> (r: Result<&T, String>)
        ensures
            match self.command_tx {
                Some(tx) => r == Ok::<&T, String>(&tx),
                None => r matches Err(e) && e@ == not_connected_error(),
            },
    {
        match &self.command_tx {
            Some(tx) => Ok(tx),
            None => Err(String::from_str("Engine IPC channel is not connected")),
        }
    }
}

/// What the host reports to its window.
#[derive(Debug, PartialEq, Eq)]
pub enum EngineEvent {
    /// The engine window's native handle (`engine-window-handle`).
    WindowHandle(u64),
    /// A line of engine output or of the link's own news (`engine-log`).
    Log(String),
    /// A message from the engine, as received (`engine-response`).
    Response(JsonValue),
    /// The engine process has ended (`engine-stopped`).
    Stopped,
}

/// An event with its text by view.
pub enum EngineEventView {
    WindowHandle(u64),
    Log(Seq<char>),
    Response(JsonValue),
    Stopped,
}

impl View for EngineEvent {
    type V = EngineEventView;

    open spec fn view(&self) -> EngineEventView {
        match self {
            EngineEvent::WindowHandle(h) => EngineEventView::WindowHandle(*h),
            EngineEvent::Log(s) => EngineEventView::Log(s@),
            EngineEvent::Response(v) => EngineEventView::Response(*v),
            EngineEvent::Stopped => EngineEventView::Stopped,
        }
    }
}

/// The views of a sequence of events.
pub open spec fn events_view(s: Seq<EngineEvent>) -> Seq<EngineEventView> {
    s.map_values(|e: EngineEvent| e@)
}

/// The name under which an event is emitted.
pub open spec fn event_name(e: EngineEventView) -> Seq<char> {
    match e {
        EngineEventView::WindowHandle(_) => "engine-window-handle"@,
        EngineEventView::Log(_) => "engine-log"@,
        EngineEventView::Response(_) => "engine-response"@,
        EngineEventView::Stopped => "engine-stopped"@,
    }
}

impl EngineEvent {
    /// The name under which the event is emitted.
    pub fn name(&self) -> (r: &'static str)
        ensures
            r@ == event_name(self@),
    {
        match self {
            EngineEvent::WindowHandle(_) => "engine-window-handle",
            EngineEvent::Log(_) => "engine-log",
            EngineEvent::Response(_) => "engine-response",
            EngineEvent::Stopped => "engine-stopped",
        }
    }
}

/// A message to the engine about its window: an action and its payload.
pub struct OverlayAction {
    pub action: String,
    pub payload: JsonValue,
}

/// An action as (name, payload fields).
pub open spec fn action_view(a: OverlayAction) -> (Seq<char>, Option<Map<Seq<char>, JsonValue>>) {
    (
        a.action@,
        match a.payload {
            JsonValue::Object(o) => Some(o@),
            _ => None,
        },
    )
}

/// The `set_frame` payload fields for a frame.
pub open spec fn frame_fields(frame: OverlayFrame) -> Map<Seq<char>, JsonValue> {
    map![
        "x"@ => i32_number(frame.x),
        "y"@ => i32_number(frame.y),
        "width"@ => i32_number(frame.width),
        "height"@ => i32_number(frame.height),
    ]
}

/// What to tell the engine about its window: `set_frame` with the frame when
/// one is known, then `follow_up` (such as `show_window`) with no fields.
pub open spec fn overlay_plan(frame: Option<OverlayFrame>, follow_up: Option<Seq<char>>) -> Seq<
    (Seq<char>, Option<Map<Seq<char>, JsonValue>>),
> {
    let first = match frame {
        Some(f) => seq![("set_frame"@, Some(frame_fields(f)))],
        None => seq![],
    };
    match follow_up {
        Some(a) => first.push((a, Some(Map::empty()))),
        None => first,
    }
}

/// The messages about the engine's window, in sending order: `set_frame`
/// for a known frame (`update_engine_bounds`, `reposition_engine_overlay`),
/// then a follow-up action (`show_window`, `hide_window`, `quit`).
pub fn overlay_actions(frame: Option<OverlayFrame>, follow_up: Option<&str>) -> (r: Vec<OverlayAction>)
    ensures
        r@.map_values(|a: OverlayAction| action_view(a)) == overlay_plan(
            frame,
            match follow_up {
                Some(a) => Some(a@),
                None => None,
            },
        ),
        r@.len() == (if frame is Some { 1int } else { 0int }) + (if follow_up is Some { 1int } else { 0int }),
        frame matches Some(f) ==> {
            &&& r@[0].action@ == "set_frame"@
            &&& r@[0].payload matches JsonValue::Object(o) && o@ == map![
                "x"@ => i32_number(f.x),
                "y"@ => i32_number(f.y),
                "width"@ => i32_number(f.width),
                "height"@ => i32_number(f.height),
            ]
        },
        follow_up matches Some(a) ==> {
            &&& r@.last().action@ == a@
            &&& r@.last().payload matches JsonValue::Object(o) && o@ == Map::<Seq<char>, JsonValue>::empty()
        },
{
    let mut v: Vec<OverlayAction> = Vec::new();
    if let Some(f) = frame {
        let payload = frame_payload(f);
        v.push(OverlayAction { action: String::from_str("set_frame"), payload });
    }
    if let Some(a) = follow_up {
        v.push(OverlayAction { action: String::from_str(a), payload: JsonValue::Object(JsonObject::new()) });
    }
    proof {
        let fu = match follow_up {
            Some(a) => Some(a@),
            None => None,
        };
        assert(v@.map_values(|a: OverlayAction| action_view(a)) =~= overlay_plan(frame, fu));
    }
    v
}

/// Whatever follows it, the `set_frame` message carries the frame itself:
/// its `x`, `y`, `width` and `height`, each under its own name, and nothing
/// else; a follow-up action comes last with no fields; with no frame there
/// is no `set_frame` at all.
pub proof fn law_set_frame_carries_frame(frame: Option<OverlayFrame>, follow_up: Option<Seq<char>>)
    ensures
        overlay_plan(frame, follow_up).len() == (if frame is Some { 1int } else { 0int }) + (
        if follow_up is Some { 1int } else { 0int }),
        frame matches Some(f) ==> overlay_plan(frame, follow_up)[0] == (
            "set_frame"@,
            Some(
                map![
                "x"@ => i32_number(f.x),
                "y"@ => i32_number(f.y),
                "width"@ => i32_number(f.width),
                "height"@ => i32_number(f.height),
            ],
            ),
        ),
        follow_up matches Some(a) ==> overlay_plan(frame, follow_up).last() == (
            a,
            Some(Map::<Seq<char>, JsonValue>::empty()),
        ),
        frame is None ==> forall|i: int|
            0 <= i < overlay_plan(frame, follow_up).len() ==> overlay_plan(frame, follow_up)[i]
                == (follow_up->0, Some(Map::<Seq<char>, JsonValue>::empty())),
{
    if let Some(f) = frame {
        assert(frame_fields(f) =~= map![
            "x"@ => i32_number(f.x),
            "y"@ => i32_number(f.y),
            "width"@ => i32_number(f.width),
            "height"@ => i32_number(f.height),
        ]);
    }
}

/// Stamping is idempotent: stamping an already stamped command for the same
/// session keeps its fields and its request identifier, and carries the
/// same session.
pub proof fn law_stamp_idempotent(
    cmd: Map<Seq<char>, JsonValue>,
    out: Map<Seq<char>, JsonValue>,
    again: Map<Seq<char>, JsonValue>,
    session: Seq<char>,
    fresh: Seq<char>,
    fresh_again: Seq<char>,
)
    requires
        stamps_command(cmd, out, session, fresh),
        stamps_command(out, again, session, fresh_again),
    ensures
        again.dom() == out.dom(),
        forall|k: Seq<char>| #[trigger] out.contains_key(k) && k != session_id_key() ==> again[k] == out[k],
        string_value(again[session_id_key()]) == string_value(out[session_id_key()]),
        again[request_id_key()] == out[request_id_key()],
{
    lemma_protocol_keys_distinct();
    assert(again.dom() =~= out.dom());
}

/// The bridge project that the engine is launched with: `engine-bridge`
/// beside the host crate's directory (`bridge_project_path`); none when that
/// directory has no parent.
pub fn bridge_project_path(manifest_dir: &str) -> (r: Option<String>)
    ensures
        match parent_dir(manifest_dir@) {
            Some(p) => r matches Some(b) && b@ == join_path(p, "engine-bridge"@),
            None => r is None,
        },
{
    match parent_directory(manifest_dir) {
        Some(p) => Some(join_paths(p.as_str(), "engine-bridge")),
        None => None,
    }
}

} // verus!
