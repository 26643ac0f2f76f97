use codex_monitor::json::{extract_thread_id, JsonNumber, JsonValue};
use codex_monitor::session::{
    is_global_workspace_notification, should_broadcast_global_workspace_notification, Delivery,
    SessionState,
};
use codex_monitor::thread_list::extract_thread_entries_from_thread_list_result;

fn s(v: &str) -> JsonValue {
    JsonValue::Str(v.to_string())
}

fn n(v: u64) -> JsonValue {
    JsonValue::Number(JsonNumber::Unsigned(v))
}

fn obj(fields: Vec<(&str, JsonValue)>) -> JsonValue {
    JsonValue::Object(fields.into_iter().map(|(k, v)| (k.to_string(), v)).collect())
}

fn event(w: &str) -> Delivery {
    Delivery::Event { workspace_id: w.to_string() }
}

fn is_event_for(d: &Delivery, w: &str) -> bool {
    matches!(d, Delivery::Event { workspace_id } if workspace_id == w)
}

#[test]
fn extract_thread_id_reads_camel_case() {
    let value = obj(vec![("params", obj(vec![("threadId", s("thread-123"))]))]);
    assert_eq!(extract_thread_id(&value), Some("thread-123".to_string()));
}

#[test]
fn extract_thread_id_reads_snake_case() {
    let value = obj(vec![("params", obj(vec![("thread_id", s("thread-456"))]))]);
    assert_eq!(extract_thread_id(&value), Some("thread-456".to_string()));
}

#[test]
fn extract_thread_id_returns_none_when_missing() {
    let value = obj(vec![("params", obj(vec![]))]);
    assert_eq!(extract_thread_id(&value), None);
}

#[test]
fn extract_thread_id_reads_nested_thread_in_result() {
    let value = obj(vec![
        ("id", n(4)),
        ("result", obj(vec![("thread", obj(vec![("id", s("thread-9"))]))])),
    ]);
    assert_eq!(extract_thread_id(&value), Some("thread-9".to_string()));
}

#[test]
fn extract_thread_id_skips_non_string_ids() {
    let value = obj(vec![(
        "params",
        obj(vec![("threadId", n(5)), ("thread_id", s("thread-7"))]),
    )]);
    assert_eq!(extract_thread_id(&value), Some("thread-7".to_string()));
}

#[test]
fn extract_thread_entries_reads_result_data_items() {
    let value = obj(vec![(
        "result",
        obj(vec![(
            "data",
            JsonValue::Array(vec![
                obj(vec![("id", s("thread-a")), ("cwd", s("/tmp/a"))]),
                obj(vec![("threadId", s("thread-b")), ("cwd", s("/tmp/b"))]),
            ]),
        )]),
    )]);
    let entries = extract_thread_entries_from_thread_list_result(&value);
    assert_eq!(entries.len(), 2);
    assert_eq!(entries[0].thread_id, "thread-a");
    assert_eq!(entries[0].cwd.as_deref(), Some("/tmp/a"));
    assert_eq!(entries[1].thread_id, "thread-b");
    assert_eq!(entries[1].cwd.as_deref(), Some("/tmp/b"));
}

#[test]
fn extract_thread_entries_walks_nested_threads_and_skips_entries_without_id() {
    let value = obj(vec![(
        "result",
        JsonValue::Array(vec![
            obj(vec![("cwd", s("/tmp/none"))]),
            obj(vec![(
                "threads",
                JsonValue::Array(vec![obj(vec![(
                    "thread",
                    obj(vec![("id", s("t-1")), ("cwd", s("/tmp/one"))]),
                )])]),
            )]),
        ]),
    )]);
    let entries = extract_thread_entries_from_thread_list_result(&value);
    assert_eq!(entries.len(), 1);
    assert_eq!(entries[0].thread_id, "t-1");
    assert_eq!(entries[0].cwd.as_deref(), Some("/tmp/one"));
}

#[test]
fn global_notification_names() {
    assert!(is_global_workspace_notification("account/updated"));
    assert!(is_global_workspace_notification("account/rateLimits/updated"));
    assert!(is_global_workspace_notification("account/login/completed"));
    assert!(!is_global_workspace_notification("turn/started"));
    let tid = "t".to_string();
    assert!(should_broadcast_global_workspace_notification(Some("account/updated"), None, None));
    assert!(!should_broadcast_global_workspace_notification(
        Some("account/updated"),
        Some(&tid),
        None
    ));
    assert!(!should_broadcast_global_workspace_notification(
        Some("account/updated"),
        None,
        Some("w")
    ));
    assert!(!should_broadcast_global_workspace_notification(None, None, None));
}

fn two_workspace_session() -> SessionState {
    let mut session = SessionState::new("W1", "/a");
    session.register_workspace_with_path("W2", Some("/a/sub"));
    session
}

#[test]
fn thread_started_by_a_workspace_routes_its_events_there() {
    let mut session = two_workspace_session();
    let id = session.begin_request("W2", "thread/start", &obj(vec![("cwd", s("/a/sub"))]));
    assert_eq!(id, 1);
    let reply = obj(vec![("id", n(id)), ("result", obj(vec![("threadId", s("T"))]))]);
    let out = session.dispatch(&reply);
    assert_eq!(out.len(), 1);
    assert!(matches!(out[0], Delivery::Reply { id: 1 }));
    let note = obj(vec![
        ("method", s("turn/started")),
        ("params", obj(vec![("threadId", s("T"))])),
    ]);
    let out = session.dispatch(&note);
    assert_eq!(out.len(), 1);
    assert!(is_event_for(&out[0], "W2"));
}

#[test]
fn global_notification_fans_out_to_each_attached_workspace() {
    let mut session = SessionState::new("W1", "/w1");
    session.register_workspace_with_path("W3", Some("/w3"));
    let note = obj(vec![("method", s("account/updated")), ("params", obj(vec![]))]);
    let out = session.dispatch(&note);
    assert_eq!(out.len(), 2);
    assert!(is_event_for(&out[0], "W1"));
    assert!(is_event_for(&out[1], "W3"));
    let _ = event("unused");
}

#[test]
fn background_thread_events_go_to_the_subscriber_only() {
    let mut session = SessionState::new("W1", "/w1");
    session.register_background_thread("T");
    let note = obj(vec![
        ("method", s("item/agentMessage/delta")),
        ("params", obj(vec![("threadId", s("T")), ("delta", s("hi"))])),
    ]);
    let out = session.dispatch(&note);
    assert_eq!(out.len(), 1);
    assert!(matches!(&out[0], Delivery::Private { thread_id } if thread_id == "T"));
    session.unregister_background_thread("T");
    let out = session.dispatch(&note);
    assert_eq!(out.len(), 1);
    assert!(is_event_for(&out[0], "W1"));
}

#[test]
fn a_reply_settles_its_request_once() {
    let mut session = SessionState::new("W1", "/w1");
    let id = session.begin_request("W1", "model/list", &obj(vec![]));
    let reply = obj(vec![("id", n(id)), ("result", obj(vec![]))]);
    assert_eq!(session.dispatch(&reply).len(), 1);
    assert_eq!(session.dispatch(&reply).len(), 0);
    assert!(session.pending.is_empty());
}

#[test]
fn request_ids_increase_and_cancel_drops_the_context() {
    let mut session = SessionState::new("W1", "/w1");
    let a = session.begin_request("W1", "model/list", &obj(vec![]));
    let b = session.begin_request("W1", "skills/list", &obj(vec![]));
    assert!(a < b);
    session.cancel_request(a);
    assert_eq!(session.pending.len(), 1);
    let late = obj(vec![("id", n(a)), ("result", obj(vec![]))]);
    assert_eq!(session.dispatch(&late).len(), 0);
    let closed = session.close();
    assert_eq!(closed, vec![b]);
    assert!(session.pending.is_empty());
}

#[test]
fn archived_thread_falls_back_to_the_owner() {
    let mut session = two_workspace_session();
    let params = obj(vec![("threadId", s("T"))]);
    let _ = session.begin_request("W2", "thread/resume", &params);
    let archived = obj(vec![("method", s("thread/archived")), ("params", params)]);
    let out = session.dispatch(&archived);
    assert!(is_event_for(&out[0], "W2"));
    let later = obj(vec![
        ("method", s("turn/completed")),
        ("params", obj(vec![("threadId", s("T"))])),
    ]);
    let out = session.dispatch(&later);
    assert!(is_event_for(&out[0], "W1"));
}

#[test]
fn thread_list_reply_binds_threads_by_working_directory() {
    let mut session = two_workspace_session();
    let id = session.begin_request("W1", "thread/list", &obj(vec![]));
    let reply = obj(vec![
        ("id", n(id)),
        (
            "result",
            obj(vec![(
                "data",
                JsonValue::Array(vec![
                    obj(vec![("id", s("in-sub")), ("cwd", s("/a/sub/deep"))]),
                    obj(vec![("id", s("in-root")), ("cwd", s("/a/other"))]),
                    obj(vec![("id", s("elsewhere")), ("cwd", s("/b"))]),
                ]),
            )]),
        ),
    ]);
    assert_eq!(session.dispatch(&reply).len(), 1);
    let note = |t: &str| {
        obj(vec![("method", s("turn/started")), ("params", obj(vec![("threadId", s(t))]))])
    };
    assert!(is_event_for(&session.dispatch(&note("in-sub"))[0], "W2"));
    assert!(is_event_for(&session.dispatch(&note("in-root"))[0], "W1"));
    assert!(is_event_for(&session.dispatch(&note("elsewhere"))[0], "W1"));
}

#[test]
fn server_request_is_routed_as_a_notification() {
    let mut session = two_workspace_session();
    let _ = session.begin_request("W2", "turn/start", &obj(vec![("threadId", s("T"))]));
    let approval = obj(vec![
        ("id", n(77)),
        ("method", s("item/commandExecution/requestApproval")),
        ("params", obj(vec![("threadId", s("T"))])),
    ]);
    let out = session.dispatch(&approval);
    assert_eq!(out.len(), 1);
    assert!(is_event_for(&out[0], "W2"));
}

#[test]
fn unregistered_workspace_leaves_the_fan_out() {
    let mut session = SessionState::new("W1", "/w1");
    session.register_workspace_with_path("W3", Some("/w3"));
    session.unregister_workspace("W1");
    assert_eq!(session.workspace_ids_snapshot(), vec!["W3".to_string()]);
}
