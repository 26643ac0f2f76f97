use codex_monitor::background::{
    extract_braced, reply_error, started_thread_id, BackgroundTurn, TurnStatus,
};
use codex_monitor::json::JsonValue;

fn s(v: &str) -> JsonValue {
    JsonValue::Str(v.to_string())
}

fn obj(fields: Vec<(&str, JsonValue)>) -> JsonValue {
    JsonValue::Object(fields.into_iter().map(|(k, v)| (k.to_string(), v)).collect())
}

fn event(method: &str, params: Vec<(&str, JsonValue)>) -> JsonValue {
    obj(vec![("method", s(method)), ("params", obj(params))])
}

#[test]
fn background_turn_collects_deltas_until_completed() {
    let mut turn = BackgroundTurn::new();
    turn.take_event(&event("turn/started", vec![]), "failed");
    turn.take_event(&event("item/agentMessage/delta", vec![("delta", s("fix: "))]), "failed");
    turn.take_event(&event("item/agentMessage/delta", vec![("delta", s("typo"))]), "failed");
    assert!(!turn.is_done());
    turn.take_event(&event("turn/completed", vec![]), "failed");
    assert!(turn.is_done());
    assert_eq!(turn.text, "fix: typo");
    assert!(matches!(turn.status, TurnStatus::Completed));
}

#[test]
fn background_turn_fails_on_error_events() {
    let mut turn = BackgroundTurn::new();
    turn.take_event(&event("turn/error", vec![("error", s("quota"))]), "failed");
    assert!(matches!(&turn.status, TurnStatus::Failed(m) if m == "quota"));
    let mut other = BackgroundTurn::new();
    other.take_event(&event("turn/error", vec![]), "Unknown error during generation");
    assert!(matches!(&other.status, TurnStatus::Failed(m) if m == "Unknown error during generation"));
}

#[test]
fn started_thread_is_found_under_result_or_at_top() {
    assert_eq!(
        started_thread_id(&obj(vec![("result", obj(vec![("threadId", s("t1"))]))])),
        Some("t1".to_string())
    );
    assert_eq!(
        started_thread_id(&obj(vec![(
            "result",
            obj(vec![("thread", obj(vec![("id", s("t2"))]))])
        )])),
        Some("t2".to_string())
    );
    assert_eq!(started_thread_id(&obj(vec![("threadId", s("t3"))])), Some("t3".to_string()));
    assert_eq!(started_thread_id(&obj(vec![])), None);
}

#[test]
fn reply_errors() {
    let with_message = obj(vec![("error", obj(vec![("message", s("boom"))]))]);
    assert_eq!(reply_error(&with_message, "fallback"), Some("boom".to_string()));
    let without = obj(vec![("error", obj(vec![]))]);
    assert_eq!(reply_error(&without, "fallback"), Some("fallback".to_string()));
    assert_eq!(reply_error(&obj(vec![("result", obj(vec![]))]), "fallback"), None);
}

#[test]
fn braced_part_of_an_answer() {
    assert_eq!(
        extract_braced("Here: {\"a\": {\"b\": 1}} done").as_deref(),
        Some("{\"a\": {\"b\": 1}}")
    );
    assert_eq!(extract_braced("no json"), None);
    assert_eq!(extract_braced("} {"), None);
    assert_eq!(extract_braced("{}").as_deref(), Some("{}"));
}
