//! The control plane's method table: each request names a method and carries
//! parameters; a request is read once, centrally, into a typed value, so that no
//! handler looks at raw parameters.
use vstd::prelude::*;
use crate::control::{
    invalid_param_message, missing_param_message, parse_optional_string,
    parse_optional_string_array, parse_optional_u32, parse_string,
};
use crate::json::{as_u64_spec, field, str_field, JsonValue};
use crate::text::{opt_view, str_is};

verus! {

/// A control-plane request, with its parameters read.
pub enum RpcRequest {
    Ping,
    ListWorkspaces,
    AddWorkspace { path: String, codex_bin: Option<String> },
    AddWorktree { parent_id: String, branch: String },
    ConnectWorkspace { id: String },
    RemoveWorkspace { id: String },
    RemoveWorktree { id: String },
    RenameWorktree { id: String, branch: String },
    UpdateWorkspaceSettings { id: String },
    StartThread { workspace_id: String },
    ResumeThread { workspace_id: String, thread_id: String },
    ListThreads { workspace_id: String, cursor: Option<String>, limit: Option<u32> },
    ArchiveThread { workspace_id: String, thread_id: String },
    SendUserMessage {
        workspace_id: String,
        thread_id: String,
        text: String,
        model: Option<String>,
        effort: Option<String>,
        access_mode: Option<String>,
        images: Option<Vec<String>>,
    },
    TurnInterrupt { workspace_id: String, thread_id: String, turn_id: String },
    ModelList { workspace_id: String },
    CollaborationModeList { workspace_id: String },
    AccountRateLimits { workspace_id: String },
    AccountRead { workspace_id: String },
    SkillsList { workspace_id: String },
    RespondToServerRequest { workspace_id: String, request_id: u64 },
    WorktreeSetupStatus { workspace_id: String },
    CodexLogin { workspace_id: String },
    UpdateWorkspaceCodexBin { id: String, codex_bin: Option<String> },
    ListWorkspaceFiles { workspace_id: String },
    ReadWorkspaceFile { workspace_id: String, path: String },
    CodexLoginCancel { workspace_id: String },
    WorktreeSetupMarkRan { workspace_id: String },
    RenameWorktreeUpstream { id: String, old_branch: String, new_branch: String },
}

/// The parameters that method `m` requires as strings; none for an unknown method.
pub open spec fn required_keys(m: Seq<char>) -> Option<Seq<Seq<char>>> {
    if m == "ping"@ || m == "list_workspaces"@ {
        Some(seq![])
    } else if m == "add_workspace"@ {
        Some(seq!["path"@])
    } else if m == "add_worktree"@ {
        Some(seq!["parentId"@, "branch"@])
    } else if m == "connect_workspace"@ || m == "remove_workspace"@ || m == "remove_worktree"@
        || m == "update_workspace_settings"@ || m == "update_workspace_codex_bin"@ {
        Some(seq!["id"@])
    } else if m == "rename_worktree"@ {
        Some(seq!["id"@, "branch"@])
    } else if m == "start_thread"@ || m == "list_threads"@ || m == "model_list"@ || m
        == "collaboration_mode_list"@ || m == "account_rate_limits"@ || m == "account_read"@ || m
        == "skills_list"@ || m == "respond_to_server_request"@ || m == "worktree_setup_status"@ || m
        == "worktree_setup_mark_ran"@ || m == "codex_login"@ || m == "codex_login_cancel"@ || m
        == "list_workspace_files"@ {
        Some(seq!["workspaceId"@])
    } else if m == "resume_thread"@ || m == "archive_thread"@ {
        Some(seq!["workspaceId"@, "threadId"@])
    } else if m == "send_user_message"@ {
        Some(seq!["workspaceId"@, "threadId"@, "text"@])
    } else if m == "turn_interrupt"@ {
        Some(seq!["workspaceId"@, "threadId"@, "turnId"@])
    } else if m == "rename_worktree_upstream"@ {
        Some(seq!["id"@, "oldBranch"@, "newBranch"@])
    } else if m == "read_workspace_file"@ {
        Some(seq!["workspaceId"@, "path"@])
    } else {
        None
    }
}

/// The first of `keys`, from index `i` on, that `params` lacks as a string.
pub open spec fn missing_from(params: JsonValue, keys: Seq<Seq<char>>, i: int) -> Option<Seq<char>>
    decreases keys.len() - i,
{
    if i < 0 || i >= keys.len() {
        None
    } else if str_field(params, keys[i]) is None {
        Some(keys[i])
    } else {
        missing_from(params, keys, i + 1)
    }
}

/// The first of `keys` that `params` lacks as a string.
pub open spec fn first_missing(params: JsonValue, keys: Seq<Seq<char>>) -> Option<Seq<char>> {
    missing_from(params, keys, 0)
}

/// The message for a missing parameter `key`.
pub open spec fn missing_message(params: JsonValue, key: Seq<char>) -> Seq<char> {
    if params is Object {
        invalid_param_message(key)
    } else {
        missing_param_message(key)
    }
}

/// The string parameter `key`.
pub open spec fn p(params: JsonValue, key: Seq<char>) -> Seq<char> {
    str_field(params, key)->0
}

/// `req` is what request `m` with `params` says.
pub open spec fn describes(req: RpcRequest, m: Seq<char>, params: JsonValue) -> bool {
    match req {
        RpcRequest::Ping => m == "ping"@,
        RpcRequest::ListWorkspaces => m == "list_workspaces"@,
        RpcRequest::AddWorkspace { path, codex_bin } => m == "add_workspace"@ && path@ == p(
            params,
            "path"@,
        ) && opt_view(codex_bin) == str_field(params, "codex_bin"@),
        RpcRequest::AddWorktree { parent_id, branch } => m == "add_worktree"@ && parent_id@ == p(
            params,
            "parentId"@,
        ) && branch@ == p(params, "branch"@),
        RpcRequest::ConnectWorkspace { id } => m == "connect_workspace"@ && id@ == p(params, "id"@),
        RpcRequest::RemoveWorkspace { id } => m == "remove_workspace"@ && id@ == p(params, "id"@),
        RpcRequest::RemoveWorktree { id } => m == "remove_worktree"@ && id@ == p(params, "id"@),
        RpcRequest::RenameWorktree { id, branch } => m == "rename_worktree"@ && id@ == p(
            params,
            "id"@,
        ) && branch@ == p(params, "branch"@),
        RpcRequest::UpdateWorkspaceSettings { id } => m == "update_workspace_settings"@ && id@ == p(
            params,
            "id"@,
        ),
        RpcRequest::StartThread { workspace_id } => m == "start_thread"@ && workspace_id@ == p(
            params,
            "workspaceId"@,
        ),
        RpcRequest::ResumeThread { workspace_id, thread_id } => m == "resume_thread"@
            && workspace_id@ == p(params, "workspaceId"@) && thread_id@ == p(params, "threadId"@),
        RpcRequest::ListThreads { workspace_id, cursor, limit } => m == "list_threads"@
            && workspace_id@ == p(params, "workspaceId"@) && opt_view(cursor) == str_field(
            params,
            "cursor"@,
        ) && limit == match field(params, "limit"@) {
            Some(v) => match as_u64_spec(v) {
                Some(n) => if n <= u32::MAX {
                    Some(n as u32)
                } else {
                    None
                },
                None => None,
            },
            None => None,
        },
        RpcRequest::ArchiveThread { workspace_id, thread_id } => m == "archive_thread"@
            && workspace_id@ == p(params, "workspaceId"@) && thread_id@ == p(params, "threadId"@),
        RpcRequest::SendUserMessage {
            workspace_id,
            thread_id,
            text,
            model,
            effort,
            access_mode,
            images,
        } => m == "send_user_message"@ && workspace_id@ == p(params, "workspaceId"@) && thread_id@
            == p(params, "threadId"@) && text@ == p(params, "text"@) && opt_view(model) == str_field(
            params,
            "model"@,
        ) && opt_view(effort) == str_field(params, "effort"@) && opt_view(access_mode)
            == str_field(params, "accessMode"@) && match images {
            Some(v) => field(params, "images"@) matches Some(JsonValue::Array(items))
                && crate::assoc::strs_view(v@) == crate::control::strings_among(items@),
            None => !(field(params, "images"@) matches Some(JsonValue::Array(_))),
        },
        RpcRequest::TurnInterrupt { workspace_id, thread_id, turn_id } => m == "turn_interrupt"@
            && workspace_id@ == p(params, "workspaceId"@) && thread_id@ == p(params, "threadId"@)
            && turn_id@ == p(params, "turnId"@),
        RpcRequest::ModelList { workspace_id } => m == "model_list"@ && workspace_id@ == p(
            params,
            "workspaceId"@,
        ),
        RpcRequest::CollaborationModeList { workspace_id } => m == "collaboration_mode_list"@
            && workspace_id@ == p(params, "workspaceId"@),
        RpcRequest::AccountRateLimits { workspace_id } => m == "account_rate_limits"@
            && workspace_id@ == p(params, "workspaceId"@),
        RpcRequest::AccountRead { workspace_id } => m == "account_read"@ && workspace_id@ == p(
            params,
            "workspaceId"@,
        ),
        RpcRequest::SkillsList { workspace_id } => m == "skills_list"@ && workspace_id@ == p(
            params,
            "workspaceId"@,
        ),
        RpcRequest::RespondToServerRequest { workspace_id, request_id } => m
            == "respond_to_server_request"@ && workspace_id@ == p(params, "workspaceId"@) && (field(
            params,
            "requestId"@,
        ) matches Some(v) && as_u64_spec(v) == Some(request_id)) && field(params, "result"@) is Some,
        RpcRequest::WorktreeSetupStatus { workspace_id } => m == "worktree_setup_status"@
            && workspace_id@ == p(params, "workspaceId"@),
        RpcRequest::WorktreeSetupMarkRan { workspace_id } => m == "worktree_setup_mark_ran"@
            && workspace_id@ == p(params, "workspaceId"@),
        RpcRequest::UpdateWorkspaceCodexBin { id, codex_bin } => m == "update_workspace_codex_bin"@
            && id@ == p(params, "id"@) && opt_view(codex_bin) == str_field(params, "codex_bin"@),
        RpcRequest::ListWorkspaceFiles { workspace_id } => m == "list_workspace_files"@
            && workspace_id@ == p(params, "workspaceId"@),
        RpcRequest::ReadWorkspaceFile { workspace_id, path } => m == "read_workspace_file"@
            && workspace_id@ == p(params, "workspaceId"@) && path@ == p(params, "path"@),
        RpcRequest::CodexLogin { workspace_id } => m == "codex_login"@ && workspace_id@ == p(
            params,
            "workspaceId"@,
        ),
        RpcRequest::CodexLoginCancel { workspace_id } => m == "codex_login_cancel"@ && workspace_id@
            == p(params, "workspaceId"@),
        RpcRequest::RenameWorktreeUpstream { id, old_branch, new_branch } => m
            == "rename_worktree_upstream"@ && id@ == p(params, "id"@) && old_branch@ == p(
            params,
            "oldBranch"@,
        ) && new_branch@ == p(params, "newBranch"@),
    }
}

/// Reads request `method` with `params` into a typed request. Refused with the
/// message `unknown method: <method>` for a method outside the table, and with the
/// message of the first required parameter that is missing or no string.
#[verifier::rlimit(60)]
pub fn parse_rpc_request(method: &str, params: &JsonValue) -> (r: Result<RpcRequest, String>)
    ensures
        match r {
            Ok(req) => describes(req, method@, *params) && required_keys(method@) is Some
                && first_missing(*params, required_keys(method@)->0) is None,
            Err(e) => match required_keys(method@) {
                None => e@ == "unknown method: "@ + method@,
                Some(keys) => match first_missing(*params, keys) {
                    Some(k) => e@ == missing_message(*params, k),
                    None => method@ == "respond_to_server_request"@ && if (field(
                        *params,
                        "requestId"@,
                    ) matches Some(v) && as_u64_spec(v) is Some) {
                        field(*params, "result"@) is None && e@ == "missing `result`"@
                    } else {
                        e@ == "missing requestId"@
                    },
                },
            },
        },
{
    proof {
        reveal_with_fuel(missing_from, 4);
    }
    if str_is(method, "ping") {
        return Ok(RpcRequest::Ping);
    }
    if str_is(method, "list_workspaces") {
        return Ok(RpcRequest::ListWorkspaces);
    }
    if str_is(method, "add_workspace") {
        let path = parse_string(params, "path")?;
        return Ok(RpcRequest::AddWorkspace { path, codex_bin: parse_optional_string(params, "codex_bin") });
    }
    if str_is(method, "add_worktree") {
        let parent_id = parse_string(params, "parentId")?;
        let branch = parse_string(params, "branch")?;
        return Ok(RpcRequest::AddWorktree { parent_id, branch });
    }
    if str_is(method, "connect_workspace") {
        return Ok(RpcRequest::ConnectWorkspace { id: parse_string(params, "id")? });
    }
    if str_is(method, "remove_workspace") {
        return Ok(RpcRequest::RemoveWorkspace { id: parse_string(params, "id")? });
    }
    if str_is(method, "remove_worktree") {
        return Ok(RpcRequest::RemoveWorktree { id: parse_string(params, "id")? });
    }
    if str_is(method, "update_workspace_settings") {
        return Ok(RpcRequest::UpdateWorkspaceSettings { id: parse_string(params, "id")? });
    }
    if str_is(method, "update_workspace_codex_bin") {
        let id = parse_string(params, "id")?;
        return Ok(
            RpcRequest::UpdateWorkspaceCodexBin {
                id,
                codex_bin: parse_optional_string(params, "codex_bin"),
            },
        );
    }
    if str_is(method, "rename_worktree") {
        let id = parse_string(params, "id")?;
        let branch = parse_string(params, "branch")?;
        return Ok(RpcRequest::RenameWorktree { id, branch });
    }
    if str_is(method, "start_thread") {
        return Ok(RpcRequest::StartThread { workspace_id: parse_string(params, "workspaceId")? });
    }
    if str_is(method, "list_threads") {
        let workspace_id = parse_string(params, "workspaceId")?;
        return Ok(
            RpcRequest::ListThreads {
                workspace_id,
                cursor: parse_optional_string(params, "cursor"),
                limit: parse_optional_u32(params, "limit"),
            },
        );
    }
    if str_is(method, "model_list") {
        return Ok(RpcRequest::ModelList { workspace_id: parse_string(params, "workspaceId")? });
    }
    if str_is(method, "collaboration_mode_list") {
        return Ok(
            RpcRequest::CollaborationModeList { workspace_id: parse_string(params, "workspaceId")? },
        );
    }
    if str_is(method, "account_rate_limits") {
        return Ok(
            RpcRequest::AccountRateLimits { workspace_id: parse_string(params, "workspaceId")? },
        );
    }
    if str_is(method, "account_read") {
        return Ok(RpcRequest::AccountRead { workspace_id: parse_string(params, "workspaceId")? });
    }
    if str_is(method, "skills_list") {
        return Ok(RpcRequest::SkillsList { workspace_id: parse_string(params, "workspaceId")? });
    }
    if str_is(method, "respond_to_server_request") {
        let workspace_id = parse_string(params, "workspaceId")?;
        let request_id = match params.get("requestId") {
            Some(v) => match v.as_u64() {
                Some(n) => n,
                None => return Err(crate::text::owned("missing requestId")),
            },
            None => return Err(crate::text::owned("missing requestId")),
        };
        if params.get("result").is_none() {
            return Err(crate::text::owned("missing `result`"));
        }
        return Ok(RpcRequest::RespondToServerRequest { workspace_id, request_id });
    }
    if str_is(method, "worktree_setup_status") {
        return Ok(
            RpcRequest::WorktreeSetupStatus { workspace_id: parse_string(params, "workspaceId")? },
        );
    }
    if str_is(method, "worktree_setup_mark_ran") {
        return Ok(
            RpcRequest::WorktreeSetupMarkRan { workspace_id: parse_string(params, "workspaceId")? },
        );
    }
    if str_is(method, "codex_login") {
        return Ok(RpcRequest::CodexLogin { workspace_id: parse_string(params, "workspaceId")? });
    }
    if str_is(method, "codex_login_cancel") {
        return Ok(
            RpcRequest::CodexLoginCancel { workspace_id: parse_string(params, "workspaceId")? },
        );
    }
    if str_is(method, "list_workspace_files") {
        return Ok(
            RpcRequest::ListWorkspaceFiles { workspace_id: parse_string(params, "workspaceId")? },
        );
    }
    if str_is(method, "resume_thread") {
        let workspace_id = parse_string(params, "workspaceId")?;
        let thread_id = parse_string(params, "threadId")?;
        return Ok(RpcRequest::ResumeThread { workspace_id, thread_id });
    }
    if str_is(method, "archive_thread") {
        let workspace_id = parse_string(params, "workspaceId")?;
        let thread_id = parse_string(params, "threadId")?;
        return Ok(RpcRequest::ArchiveThread { workspace_id, thread_id });
    }
    if str_is(method, "send_user_message") {
        let workspace_id = parse_string(params, "workspaceId")?;
        let thread_id = parse_string(params, "threadId")?;
        let text = parse_string(params, "text")?;
        return Ok(
            RpcRequest::SendUserMessage {
                workspace_id,
                thread_id,
                text,
                model: parse_optional_string(params, "model"),
                effort: parse_optional_string(params, "effort"),
                access_mode: parse_optional_string(params, "accessMode"),
                images: parse_optional_string_array(params, "images"),
            },
        );
    }
    if str_is(method, "turn_interrupt") {
        let workspace_id = parse_string(params, "workspaceId")?;
        let thread_id = parse_string(params, "threadId")?;
        let turn_id = parse_string(params, "turnId")?;
        return Ok(RpcRequest::TurnInterrupt { workspace_id, thread_id, turn_id });
    }
    if str_is(method, "rename_worktree_upstream") {
        let id = parse_string(params, "id")?;
        let old_branch = parse_string(params, "oldBranch")?;
        let new_branch = parse_string(params, "newBranch")?;
        return Ok(RpcRequest::RenameWorktreeUpstream { id, old_branch, new_branch });
    }
    if str_is(method, "read_workspace_file") {
        let workspace_id = parse_string(params, "workspaceId")?;
        let path = parse_string(params, "path")?;
        return Ok(RpcRequest::ReadWorkspaceFile { workspace_id, path });
    }
    let head = crate::text::chars_of("unknown method: ");
    Err(crate::text::string_of(&crate::text::concat_chars(&head, &crate::text::chars_of(method))))
}

} // verus!
