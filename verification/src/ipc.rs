//! Messages on the IPC link from the engine: which ones belong to the active
//! session, what the host records from them, and what it reports.
use vstd::prelude::*;
use vstd::string::*;

use crate::engine::{
    events_view, keeps_session, session_id_key, stamps_command, EngineEvent, EngineEventView,
    EngineProcess,
};
use crate::json::{field, i64_value, string_value, u64_value, JsonObject, JsonValue};
use crate::text::{is_blank, opt_string_view, str_equal, trim};

verus! {

/// The session identifier a message carries, if it carries one as a string.
pub open spec fn message_session(json: JsonValue) -> Option<Seq<char>> {
    match field(json, "session_id"@) {
        Some(v) => string_value(v),
        None => None,
    }
}

/// A message is accepted when no session is active, or when it carries the
/// active session's identifier.
pub open spec fn session_accepts(expected: Option<Seq<char>>, actual: Option<Seq<char>>) -> bool {
    match expected {
        Some(e) => actual == Some(e),
        None => true,
    }
}

/// Whether a message belongs to the expected session (`session_matches`).
pub fn session_matches(expected: &Option<String>, json: &JsonValue) -> (r: bool)
    ensures
        r == session_accepts(opt_string_view(*expected), message_session(*json)),
{
    let message_session = match json.get("session_id") {
        Some(v) => v.as_str(),
        None => None,
    };
    match (expected, message_session) {
        (Some(e), Some(actual)) => str_equal(e.as_str(), actual),
        (Some(_), None) => false,
        _ => true,
    }
}

/// The `type` a message carries as a string.
pub open spec fn message_type(json: JsonValue) -> Option<Seq<char>> {
    match field(json, "type"@) {
        Some(v) => string_value(v),
        None => None,
    }
}

/// A window handle as the engine sends it: an unsigned integer, or a signed
/// one taken by its two's-complement bits.
pub open spec fn handle_number(h: JsonValue) -> Option<u64> {
    match u64_value(h) {
        Some(n) => Some(n),
        None => match i64_value(h) {
            Some(v) => Some(v as u64),
            None => None,
        },
    }
}

/// The window handle a `window_ready` message announces.
pub open spec fn announced_handle(json: JsonValue) -> Option<u64> {
    if message_type(json) == Some("window_ready"@) {
        match field(json, "handle"@) {
            Some(h) => handle_number(h),
            None => None,
        }
    } else {
        None
    }
}

/// The text a `log` message carries.
pub open spec fn logged_text(json: JsonValue) -> Option<Seq<char>> {
    if message_type(json) == Some("log"@) {
        match field(json, "message"@) {
            Some(m) => string_value(m),
            None => None,
        }
    } else {
        None
    }
}

/// What an accepted message is reported as: the announced window handle or
/// the logged text, if any, then the message itself.
pub open spec fn accepted_events(json: JsonValue) -> Seq<EngineEventView> {
    let first = match announced_handle(json) {
        Some(h) => seq![EngineEventView::WindowHandle(h)],
        None => match logged_text(json) {
            Some(t) => seq![EngineEventView::Log(t)],
            None => seq![],
        },
    };
    first.push(EngineEventView::Response(json))
}

/// A message from the engine (`handle_incoming_message`): ignored unless it
/// belongs to the active session; a `window_ready` message records the
/// engine window's handle. Returns the events to report, in order.
pub fn handle_incoming_message<C, T>(state: &mut EngineProcess<C, T>, json: JsonValue) -> (r: Vec<
    EngineEvent,
>)
    ensures
        keeps_session(*old(state), *final(state)),
        !session_accepts(opt_string_view(old(state).session_id), message_session(json)) ==> {
            &&& r@.len() == 0
            &&& *final(state) == *old(state)
        },
        session_accepts(opt_string_view(old(state).session_id), message_session(json)) ==> {
            &&& events_view(r@) == accepted_events(json)
            &&& final(state).window_handle == match announced_handle(json) {
                Some(h) => Some(h),
                None => old(state).window_handle,
            }
            &&& final(state).child == old(state).child
            &&& final(state).project_path == old(state).project_path
            &&& final(state).session_id == old(state).session_id
            &&& final(state).command_tx == old(state).command_tx
        },
{
    let mut events: Vec<EngineEvent> = Vec::new();
    if !session_matches(&state.session_id, &json) {
        return events;
    }
    proof {
        reveal_strlit("window_ready");
        reveal_strlit("log");
        assert("window_ready"@[0] != "log"@[0]);
    }
    let kind = match json.get("type") {
        Some(v) => v.as_str(),
        None => None,
    };
    let is_ready = match kind {
        Some(k) => str_equal(k, "window_ready"),
        None => false,
    };
    let is_log = match kind {
        Some(k) => str_equal(k, "log"),
        None => false,
    };
    if is_ready {
        let handle = match json.get("handle") {
            Some(h) => match h.as_u64() {
                Some(n) => Some(n),
                None => match h.as_i64() {
                    Some(v) => Some(v as u64),
                    None => None,
                },
            },
            None => None,
        };
        if let Some(h) = handle {
            state.window_handle = Some(h);
            events.push(EngineEvent::WindowHandle(h));
        }
    } else if is_log {
        let message = match json.get("message") {
            Some(m) => m.as_str(),
            None => None,
        };
        if let Some(m) = message {
            events.push(EngineEvent::Log(String::from_str(m)));
        }
    }
    events.push(EngineEvent::Response(json));
    proof {
        assert(events_view(events@) =~= accepted_events(json));
    }
    events
}

/// A line read from the link (the reader loop of `start_ipc_server`), with
/// what parsing it as JSON gave: a blank line is skipped, a line that is not
/// JSON is reported as engine output, and a JSON message is handled.
pub fn incoming_line<C, T>(state: &mut EngineProcess<C, T>, line: &str, parsed: Option<JsonValue>) -> (r: Vec<
    EngineEvent,
>)
    ensures
        keeps_session(*old(state), *final(state)),
        trim(line@).len() == 0 ==> r@.len() == 0 && *final(state) == *old(state),
        trim(line@).len() != 0 && parsed is None ==> {
            &&& events_view(r@) == seq![EngineEventView::Log(line@)]
            &&& *final(state) == *old(state)
        },
        trim(line@).len() != 0 && parsed is Some ==> {
            let json = parsed->0;
            if session_accepts(opt_string_view(old(state).session_id), message_session(json)) {
                &&& events_view(r@) == accepted_events(json)
                &&& final(state).window_handle == match announced_handle(json) {
                    Some(h) => Some(h),
                    None => old(state).window_handle,
                }
                &&& final(state).child == old(state).child
                &&& final(state).project_path == old(state).project_path
                &&& final(state).session_id == old(state).session_id
                &&& final(state).command_tx == old(state).command_tx
            } else {
                r@.len() == 0 && *final(state) == *old(state)
            }
        },
{
    if is_blank(line) {
        return Vec::new();
    }
    match parsed {
        None => {
            let mut events: Vec<EngineEvent> = Vec::new();
            events.push(EngineEvent::Log(String::from_str(line)));
            assert(events_view(events@) =~= seq![EngineEventView::Log(line@)]);
            events
        },
        Some(json) => handle_incoming_message(state, json),
    }
}

/// The link's reader ended: the sender is dropped and the end reported.
pub fn ipc_reader_closed<C, T>(state: &mut EngineProcess<C, T>) -> (r: EngineEvent)
    ensures
        keeps_session(*old(state), *final(state)),
        r@ == EngineEventView::Log("Engine IPC reader closed"@),
        final(state).command_tx is None,
        final(state).child == old(state).child,
        final(state).project_path == old(state).project_path,
        final(state).window_handle == old(state).window_handle,
        final(state).session_id == old(state).session_id,
{
    state.clear_ipc_sender();
    EngineEvent::Log(String::from_str("Engine IPC reader closed"))
}

/// The link's writer ended: the sender is dropped and the end reported.
pub fn ipc_writer_closed<C, T>(state: &mut EngineProcess<C, T>) -> (r: EngineEvent)
    ensures
        keeps_session(*old(state), *final(state)),
        r@ == EngineEventView::Log("Engine IPC writer closed"@),
        final(state).command_tx is None,
        final(state).child == old(state).child,
        final(state).project_path == old(state).project_path,
        final(state).window_handle == old(state).window_handle,
        final(state).session_id == old(state).session_id,
{
    state.clear_ipc_sender();
    EngineEvent::Log(String::from_str("Engine IPC writer closed"))
}

/// Accepting the engine's connection failed with `error`: the sender is
/// dropped and the failure reported.
pub fn ipc_accept_failed<C, T>(state: &mut EngineProcess<C, T>, error: &str) -> (r: EngineEvent)
    ensures
        keeps_session(*old(state), *final(state)),
        r@ == EngineEventView::Log("IPC accept failed: "@ + error@),
        final(state).command_tx is None,
        final(state).child == old(state).child,
        final(state).project_path == old(state).project_path,
        final(state).window_handle == old(state).window_handle,
        final(state).session_id == old(state).session_id,
{
    state.clear_ipc_sender();
    EngineEvent::Log(String::from_str("IPC accept failed: ").concat(error))
}

/// Messages with the active session's identifier are accepted, messages with
/// another or none are refused, and with no active session every message is
/// accepted.
pub proof fn law_session_filter(active: Option<Seq<char>>, carried: Option<Seq<char>>)
    ensures
        active is None ==> session_accepts(active, carried),
        active is Some ==> (session_accepts(active, carried) <==> carried == active),
{
}

/// An accepted message is reported once, last, as itself. Before it comes at
/// most one event: an engine log line only for a message whose `type` is the
/// string `log`, carrying its `message` text; a window handle only for a
/// message whose `type` is the string `window_ready`. A message of any other
/// type is reported as itself alone, and a `log` message with a text is
/// always logged.
pub proof fn law_accepted_message_events(json: JsonValue)
    ensures
        1 <= accepted_events(json).len() <= 2,
        accepted_events(json).last() == EngineEventView::Response(json),
        forall|i: int|
            0 <= i < accepted_events(json).len() - 1 ==> !(accepted_events(json)[i] is Response),
        forall|i: int|
            #![trigger accepted_events(json)[i]]
            0 <= i < accepted_events(json).len() && accepted_events(json)[i] is Log ==> {
                &&& field(json, "type"@) is Some
                &&& string_value(field(json, "type"@)->0) == Some("log"@)
                &&& field(json, "message"@) is Some
                &&& string_value(field(json, "message"@)->0) == Some(
                    accepted_events(json)[i]->Log_0,
                )
            },
        forall|i: int|
            #![trigger accepted_events(json)[i]]
            0 <= i < accepted_events(json).len() && accepted_events(json)[i] is WindowHandle ==> {
                &&& field(json, "type"@) is Some
                &&& string_value(field(json, "type"@)->0) == Some("window_ready"@)
            },
        ({
            &&& field(json, "type"@) is Some
            &&& string_value(field(json, "type"@)->0) != Some("log"@)
            &&& string_value(field(json, "type"@)->0) != Some("window_ready"@)
        }) ==> accepted_events(json) == seq![EngineEventView::Response(json)],
        field(json, "type"@) is None ==> accepted_events(json) == seq![
            EngineEventView::Response(json),
        ],
        ({
            &&& field(json, "type"@) is Some
            &&& string_value(field(json, "type"@)->0) == Some("log"@)
            &&& field(json, "message"@) is Some
            &&& string_value(field(json, "message"@)->0) is Some
        }) ==> accepted_events(json) == seq![
            EngineEventView::Log(string_value(field(json, "message"@)->0)->0),
            EngineEventView::Response(json),
        ],
{
    reveal_strlit("window_ready");
    reveal_strlit("log");
    assert("window_ready"@[0] != "log"@[0]);
}

/// A command the host stamped for a session carries that session, so the
/// engine's reply that echoes it passes the session filter.
pub proof fn law_stamped_command_passes_filter(
    cmd: Map<Seq<char>, JsonValue>,
    out: JsonObject,
    session: Seq<char>,
    fresh: Seq<char>,
)
    requires
        stamps_command(cmd, out@, session, fresh),
    ensures
        message_session(JsonValue::Object(out)) == Some(session),
        session_accepts(Some(session), message_session(JsonValue::Object(out))),
{
    assert(out@.contains_key(session_id_key()));
}

} // verus!
