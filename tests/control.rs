use codex_monitor::control::{
    build_error_response, build_result_response, parse_auth_token, parse_optional_string,
    parse_optional_string_array, parse_optional_u32, parse_string, parse_string_array,
    ConnectionGate, GateDecision,
};
use codex_monitor::daemon::{
    is_auth_error_message, missing_tailscale_message, missing_tailscale_message_for,
    parse_daemon_error_message, tailscale_binary_candidates, Platform,
    trim_to_non_empty, usage,
};
use codex_monitor::json::{JsonNumber, JsonValue};

fn s(v: &str) -> JsonValue {
    JsonValue::Str(v.to_string())
}

fn obj(fields: Vec<(&str, JsonValue)>) -> JsonValue {
    JsonValue::Object(fields.into_iter().map(|(k, v)| (k.to_string(), v)).collect())
}

#[test]
fn auth_token_from_string_or_object() {
    assert_eq!(parse_auth_token(&s("secret")), Some("secret".to_string()));
    assert_eq!(
        parse_auth_token(&obj(vec![("token", s("secret"))])),
        Some("secret".to_string())
    );
    assert_eq!(parse_auth_token(&JsonValue::Null), None);
}

#[test]
fn gate_requires_auth_first() {
    let token = Some("secret");
    let mut gate = ConnectionGate::new(token);
    assert!(!gate.authenticated);
    assert_eq!(
        gate.on_request(token, "list_workspaces", &JsonValue::Null),
        GateDecision::Unauthorized
    );
    assert_eq!(gate.on_request(token, "auth", &s("wrong")), GateDecision::InvalidToken);
    assert!(!gate.authenticated);
    assert_eq!(
        gate.on_request(token, "auth", &obj(vec![("token", s("secret"))])),
        GateDecision::Accepted
    );
    assert!(gate.authenticated);
    assert_eq!(
        gate.on_request(token, "list_workspaces", &JsonValue::Null),
        GateDecision::Dispatch
    );
}

#[test]
fn gate_without_token_is_open() {
    let mut gate = ConnectionGate::new(None);
    assert!(gate.authenticated);
    assert_eq!(gate.on_request(None, "ping", &JsonValue::Null), GateDecision::Dispatch);
}

#[test]
fn typed_parameters() {
    let params = obj(vec![
        ("workspaceId", s("w")),
        ("limit", JsonValue::Number(JsonNumber::Unsigned(20))),
        ("huge", JsonValue::Number(JsonNumber::Unsigned(1u64 << 40))),
        ("paths", JsonValue::Array(vec![s("a"), JsonValue::Bool(true), s("b")])),
    ]);
    assert_eq!(parse_string(&params, "workspaceId"), Ok("w".to_string()));
    assert_eq!(
        parse_string(&params, "threadId"),
        Err("missing or invalid `threadId`".to_string())
    );
    assert_eq!(
        parse_string(&JsonValue::Null, "threadId"),
        Err("missing `threadId`".to_string())
    );
    assert_eq!(parse_optional_string(&params, "limit"), None);
    assert_eq!(parse_optional_u32(&params, "limit"), Some(20));
    assert_eq!(parse_optional_u32(&params, "huge"), None);
    assert_eq!(
        parse_optional_string_array(&params, "paths"),
        Some(vec!["a".to_string(), "b".to_string()])
    );
    assert_eq!(
        parse_string_array(&params, "missing"),
        Err("missing `missing`".to_string())
    );
}

#[test]
fn replies_carry_the_request_id() {
    assert!(build_error_response(None, "x").is_none());
    match build_error_response(Some(7), "unauthorized") {
        Some(JsonValue::Object(fields)) => {
            assert_eq!(fields[0].0, "id");
            assert!(matches!(fields[0].1, JsonValue::Number(JsonNumber::Unsigned(7))));
            assert_eq!(fields[1].0, "error");
            match &fields[1].1 {
                JsonValue::Object(inner) => {
                    assert_eq!(inner[0].0, "message");
                    assert!(matches!(&inner[0].1, JsonValue::Str(m) if m == "unauthorized"));
                }
                _ => panic!("error member is no object"),
            }
        }
        _ => panic!("no reply"),
    }
    match build_result_response(Some(3), JsonValue::Bool(true)) {
        Some(JsonValue::Object(fields)) => {
            assert_eq!(fields[1].0, "result");
            assert!(matches!(fields[1].1, JsonValue::Bool(true)));
        }
        _ => panic!("no reply"),
    }
}

#[test]
fn daemon_client_helpers() {
    assert_eq!(trim_to_non_empty(Some("  x ")), Some("x".to_string()));
    assert_eq!(trim_to_non_empty(Some("   ")), None);
    assert_eq!(trim_to_non_empty(None), None);
    let reply = obj(vec![("error", obj(vec![("message", s("invalid token"))]))]);
    assert_eq!(parse_daemon_error_message(&reply), Some("invalid token".to_string()));
    assert_eq!(parse_daemon_error_message(&obj(vec![])), None);
    assert!(is_auth_error_message("Unauthorized"));
    assert!(is_auth_error_message("error: Invalid Token given"));
    assert!(!is_auth_error_message("timed out"));
    assert!(usage().contains("--listen <addr>"));
    assert!(usage().contains("127.0.0.1:4732"));
    assert!(missing_tailscale_message().starts_with("Tailscale CLI not found"));
}

#[test]
fn includes_path_candidate() {
    for platform in [Platform::MacOs, Platform::Linux, Platform::Windows, Platform::Other] {
        let candidates = tailscale_binary_candidates(platform);
        assert!(!candidates.is_empty());
        assert_eq!(candidates[0], "tailscale");
    }
    let mac = tailscale_binary_candidates(Platform::MacOs);
    assert!(mac
        .iter()
        .any(|candidate| candidate == "/Applications/Tailscale.app/Contents/MacOS/Tailscale"));
    assert!(missing_tailscale_message_for(Platform::MacOs).contains("/Applications/Tailscale.app"));
    assert_eq!(missing_tailscale_message_for(Platform::Linux), missing_tailscale_message());
}
