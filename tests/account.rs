use codex_monitor::account::{
    auth_account_from_claims, build_account_response, id_token_of, jwt_payload_bytes, AuthAccount,
};
use codex_monitor::json::{JsonNumber, JsonValue};

fn s(v: &str) -> JsonValue {
    JsonValue::Str(v.to_string())
}

fn obj(fields: Vec<(&str, JsonValue)>) -> JsonValue {
    JsonValue::Object(fields.into_iter().map(|(k, v)| (k.to_string(), v)).collect())
}

fn fallback_account() -> AuthAccount {
    AuthAccount {
        email: Some("chatgpt@example.com".to_string()),
        plan_type: Some("plus".to_string()),
    }
}

fn copy(v: &JsonValue) -> JsonValue {
    match v {
        JsonValue::Null => JsonValue::Null,
        JsonValue::Bool(b) => JsonValue::Bool(*b),
        JsonValue::Number(JsonNumber::Unsigned(n)) => JsonValue::Number(JsonNumber::Unsigned(*n)),
        JsonValue::Number(JsonNumber::Signed(n)) => JsonValue::Number(JsonNumber::Signed(*n)),
        JsonValue::Number(JsonNumber::Decimal(t)) => JsonValue::Number(JsonNumber::Decimal(t.clone())),
        JsonValue::Str(t) => JsonValue::Str(t.clone()),
        JsonValue::Array(items) => JsonValue::Array(items.iter().map(copy).collect()),
        JsonValue::Object(fields) => {
            JsonValue::Object(fields.iter().map(|(k, v)| (k.clone(), copy(v))).collect())
        }
    }
}

fn result_account_map(value: &JsonValue) -> Vec<(String, JsonValue)> {
    match value.get("account") {
        Some(JsonValue::Object(fields)) => {
            fields.iter().map(|(k, v)| (k.clone(), copy(v))).collect()
        }
        _ => Vec::new(),
    }
}

fn member<'a>(fields: &'a [(String, JsonValue)], key: &str) -> Option<&'a str> {
    fields.iter().find(|(k, _)| k == key).and_then(|(_, v)| match v {
        JsonValue::Str(t) => Some(t.as_str()),
        _ => None,
    })
}

fn has(fields: &[(String, JsonValue)], key: &str) -> bool {
    fields.iter().any(|(k, _)| k == key)
}

#[test]
fn build_account_response_does_not_fallback_for_apikey() {
    let response = Some(obj(vec![("account", obj(vec![("type", s("apikey"))]))]));
    let result = build_account_response(response, Some(fallback_account()));
    let account = result_account_map(&result);
    assert_eq!(member(&account, "type"), Some("apikey"));
    assert!(!has(&account, "email"));
    assert!(!has(&account, "planType"));
}

#[test]
fn build_account_response_falls_back_when_account_missing() {
    let result = build_account_response(None, Some(fallback_account()));
    let account = result_account_map(&result);
    assert_eq!(member(&account, "email"), Some("chatgpt@example.com"));
    assert_eq!(member(&account, "planType"), Some("plus"));
    assert_eq!(member(&account, "type"), Some("chatgpt"));
}

#[test]
fn build_account_response_allows_fallback_for_chatgpt_type() {
    let response = Some(obj(vec![("account", obj(vec![("type", s("chatgpt"))]))]));
    let result = build_account_response(response, Some(fallback_account()));
    let account = result_account_map(&result);
    assert_eq!(member(&account, "type"), Some("chatgpt"));
    assert_eq!(member(&account, "email"), Some("chatgpt@example.com"));
    assert_eq!(member(&account, "planType"), Some("plus"));
}

#[test]
fn account_answer_without_anything_is_null() {
    let result = build_account_response(None, None);
    assert!(matches!(result.get("account"), Some(JsonValue::Null)));
    assert!(result.get("requiresOpenaiAuth").is_none());
}

#[test]
fn account_answer_reads_root_members_and_auth_flag() {
    let response = obj(vec![
        ("result", obj(vec![("requiresOpenaiAuth", JsonValue::Bool(true))])),
        ("email", s("me@x.io")),
    ]);
    let result = build_account_response(Some(response), None);
    assert!(matches!(result.get("requiresOpenaiAuth"), Some(JsonValue::Bool(true))));
    let account = result_account_map(&result);
    assert_eq!(member(&account, "email"), Some("me@x.io"));
}

#[test]
fn id_token_is_read_from_either_spelling() {
    let camel = obj(vec![("tokens", obj(vec![("idToken", s("a.b.c"))]))]);
    let snake = obj(vec![("tokens", obj(vec![("id_token", s("d.e.f"))]))]);
    assert_eq!(id_token_of(&camel), Some("a.b.c".to_string()));
    assert_eq!(id_token_of(&snake), Some("d.e.f".to_string()));
    assert_eq!(id_token_of(&obj(vec![])), None);
}

#[test]
fn jwt_payload_is_decoded_from_the_middle_part() {
    let token = "header.eyJlbWFpbCI6ImFAYi5jIn0.signature";
    assert_eq!(jwt_payload_bytes(token), Some(b"{\"email\":\"a@b.c\"}".to_vec()));
    let padded = "h.eyJhIjoxfQ==.s";
    assert_eq!(jwt_payload_bytes(padded), Some(b"{\"a\":1}".to_vec()));
    assert_eq!(jwt_payload_bytes("no-dots"), None);
    assert_eq!(jwt_payload_bytes("a.!!!.c"), None);
}

#[test]
fn claims_give_email_and_plan() {
    let claims = obj(vec![
        ("https://api.openai.com/auth", obj(vec![("chatgpt_plan_type", s(" pro "))])),
        ("https://api.openai.com/profile", obj(vec![("email", s("p@x.io"))])),
    ]);
    let account = auth_account_from_claims(&claims).unwrap();
    assert_eq!(account.email.as_deref(), Some("p@x.io"));
    assert_eq!(account.plan_type.as_deref(), Some("pro"));
    assert!(auth_account_from_claims(&obj(vec![("email", s("   "))])).is_none());
}
