use codex_monitor::json::{JsonNumber, JsonValue};
use codex_monitor::launch::{agent_binary, merge_search_paths};
use codex_monitor::protocol::{
    build_initialize_params, connected_event, is_blank_line, parse_error_event,
    request_timed_out_message, stderr_event, REQUEST_TIMEOUT_SECS,
};
use codex_monitor::rpc::{parse_rpc_request, RpcRequest};
use codex_monitor::run_name::{branch_name_from_lowered, sanitize_run_worktree_name};
use codex_monitor::session::SessionState;

fn s(v: &str) -> JsonValue {
    JsonValue::Str(v.to_string())
}

fn obj(fields: Vec<(&str, JsonValue)>) -> JsonValue {
    JsonValue::Object(fields.into_iter().map(|(k, v)| (k.to_string(), v)).collect())
}

fn get<'a>(v: &'a JsonValue, key: &str) -> Option<&'a JsonValue> {
    v.get(key)
}

fn text<'a>(v: Option<&'a JsonValue>) -> Option<&'a str> {
    match v {
        Some(JsonValue::Str(s)) => Some(s.as_str()),
        _ => None,
    }
}

#[test]
fn build_initialize_params_enables_experimental_api() {
    let params = build_initialize_params("1.2.3");
    let flag = get(&params, "capabilities").and_then(|caps| caps.get("experimentalApi"));
    assert!(matches!(flag, Some(JsonValue::Bool(true))));
    let info = get(&params, "clientInfo").unwrap();
    assert_eq!(text(info.get("version")), Some("1.2.3"));
    assert_eq!(text(info.get("name")), Some("codex_monitor"));
}

#[test]
fn synthetic_events() {
    let connected = connected_event("ws-9");
    assert_eq!(text(connected.get("method")), Some("codex/connected"));
    assert_eq!(text(connected.get("params").and_then(|p| p.get("workspaceId"))), Some("ws-9"));
    let stderr = stderr_event("boom");
    assert_eq!(text(stderr.get("method")), Some("codex/stderr"));
    assert_eq!(text(stderr.get("params").and_then(|p| p.get("message"))), Some("boom"));
    let bad = parse_error_event("expected value", "{oops");
    assert_eq!(text(bad.get("method")), Some("codex/parseError"));
    assert_eq!(text(bad.get("params").and_then(|p| p.get("raw"))), Some("{oops"));
    assert_eq!(text(bad.get("params").and_then(|p| p.get("error"))), Some("expected value"));
}

#[test]
fn unanswered_request_times_out_and_is_dropped() {
    let mut session = SessionState::new("W1", "/w1");
    let id = session.begin_request("W1", "model/list", &obj(vec![]));
    assert_eq!(REQUEST_TIMEOUT_SECS, 300);
    session.cancel_request(id);
    let message = request_timed_out_message(REQUEST_TIMEOUT_SECS);
    assert_eq!(message, "request timed out after 300 seconds");
    assert!(message.contains("timed out"));
    assert!(session.pending.is_empty());
    let late = obj(vec![
        ("id", JsonValue::Number(JsonNumber::Unsigned(id))),
        ("result", obj(vec![])),
    ]);
    assert!(session.dispatch(&late).is_empty());
}

#[test]
fn blank_lines() {
    assert!(is_blank_line(""));
    assert!(is_blank_line("  \t "));
    assert!(!is_blank_line(" {} "));
}

#[test]
fn rpc_table_reads_typed_requests() {
    let params = obj(vec![("workspaceId", s("w")), ("threadId", s("t")), ("text", s("hi"))]);
    match parse_rpc_request("send_user_message", &params) {
        Ok(RpcRequest::SendUserMessage { workspace_id, thread_id, text, model, images, .. }) => {
            assert_eq!(workspace_id, "w");
            assert_eq!(thread_id, "t");
            assert_eq!(text, "hi");
            assert_eq!(model, None);
            assert_eq!(images, None);
        }
        _ => panic!("not a send_user_message request"),
    }
    assert!(matches!(parse_rpc_request("ping", &JsonValue::Null), Ok(RpcRequest::Ping)));
    match parse_rpc_request("add_workspace", &obj(vec![("path", s("/tmp/proj"))])) {
        Ok(RpcRequest::AddWorkspace { path, codex_bin }) => {
            assert_eq!(path, "/tmp/proj");
            assert_eq!(codex_bin, None);
        }
        _ => panic!("not an add_workspace request"),
    }
}

#[test]
fn rpc_table_refusals() {
    assert_eq!(
        parse_rpc_request("nope", &JsonValue::Null).err(),
        Some("unknown method: nope".to_string())
    );
    assert_eq!(
        parse_rpc_request("turn_interrupt", &obj(vec![("workspaceId", s("w")), ("threadId", s("t"))])).err(),
        Some("missing or invalid `turnId`".to_string())
    );
    assert_eq!(
        parse_rpc_request("start_thread", &JsonValue::Null).err(),
        Some("missing `workspaceId`".to_string())
    );
    assert_eq!(
        parse_rpc_request("respond_to_server_request", &obj(vec![("workspaceId", s("w"))])).err(),
        Some("missing requestId".to_string())
    );
}

#[test]
fn search_path_keeps_inherited_entries_first() {
    let merged = merge_search_paths(
        vec!["/usr/bin".to_string(), "/bin".to_string()],
        &vec!["/opt/homebrew/bin".to_string(), "/bin".to_string(), "/opt/homebrew/bin".to_string()],
    );
    assert_eq!(merged, vec!["/usr/bin", "/bin", "/opt/homebrew/bin"]);
}

#[test]
fn agent_binary_defaults_to_codex() {
    assert_eq!(agent_binary(None), "codex");
    assert_eq!(agent_binary(Some("   ")), "codex");
    assert_eq!(agent_binary(Some(" /opt/codex ")), "/opt/codex");
}

#[test]
fn run_branch_names() {
    assert_eq!(sanitize_run_worktree_name("  Fix Login Bug  "), "fix/login-bug");
    assert_eq!(sanitize_run_worktree_name("fix/Login  bug!"), "fix/login-bug");
    assert_eq!(sanitize_run_worktree_name("docs-update readme"), "docs/update-readme");
    assert_eq!(sanitize_run_worktree_name("Title Ünïcode"), "feat/title-ncode");
    assert_eq!(branch_name_from_lowered("/lead--slash/"), "feat/lead-slash");
    assert_eq!(branch_name_from_lowered(""), "feat/");
}

#[test]
fn rpc_table_reads_worktree_requests() {
    match parse_rpc_request(
        "rename_worktree_upstream",
        &obj(vec![("id", s("w")), ("oldBranch", s("a")), ("newBranch", s("b"))]),
    ) {
        Ok(RpcRequest::RenameWorktreeUpstream { id, old_branch, new_branch }) => {
            assert_eq!((id.as_str(), old_branch.as_str(), new_branch.as_str()), ("w", "a", "b"));
        }
        _ => panic!("not an upstream rename"),
    }
    assert!(matches!(
        parse_rpc_request("worktree_setup_status", &obj(vec![("workspaceId", s("w"))])),
        Ok(RpcRequest::WorktreeSetupStatus { .. })
    ));
}

#[test]
fn broadcast_event_wraps_the_agent_message() {
    let message = obj(vec![("method", s("turn/started"))]);
    let event = codex_monitor::protocol::app_server_event("W2", message);
    assert_eq!(text(event.get("method")), Some("app-server-event"));
    let params = event.get("params").unwrap();
    assert_eq!(text(params.get("workspaceId")), Some("W2"));
    assert_eq!(text(params.get("message").and_then(|m| m.get("method"))), Some("turn/started"));
}

#[test]
fn rpc_table_reads_file_and_binary_requests() {
    match parse_rpc_request("read_workspace_file", &obj(vec![("workspaceId", s("w")), ("path", s("a.txt"))])) {
        Ok(RpcRequest::ReadWorkspaceFile { workspace_id, path }) => {
            assert_eq!((workspace_id.as_str(), path.as_str()), ("w", "a.txt"));
        }
        _ => panic!("not a file read"),
    }
    match parse_rpc_request("update_workspace_codex_bin", &obj(vec![("id", s("w"))])) {
        Ok(RpcRequest::UpdateWorkspaceCodexBin { id, codex_bin }) => {
            assert_eq!(id, "w");
            assert_eq!(codex_bin, None);
        }
        _ => panic!("not a binary update"),
    }
    assert!(matches!(
        parse_rpc_request("codex_login_cancel", &obj(vec![("workspaceId", s("w"))])),
        Ok(RpcRequest::CodexLoginCancel { .. })
    ));
}
