//! Fixed shapes of the agent protocol: handshake parameters, the synthetic events
//! that the supervisor emits about a session, and its time limits.
use vstd::prelude::*;
use crate::json::JsonValue;
use crate::text::{decimal, owned, trim};

verus! {

/// Seconds that a request waits for its reply.
pub const REQUEST_TIMEOUT_SECS: u64 = 300;

/// Seconds that the initialize handshake may take.
pub const INITIALIZE_TIMEOUT_SECS: u64 = 15;

/// Seconds that the agent's version check may take.
pub const VERSION_CHECK_TIMEOUT_SECS: u64 = 5;

/// The error of a request that got no reply within `secs` seconds.
pub fn request_timed_out_message(secs: u64) -> (r: String)
    ensures
        r@ == "request timed out after "@ + decimal(secs as nat) + " seconds"@,
{
    let head = crate::text::concat_chars(
        &crate::text::chars_of("request timed out after "),
        &crate::text::decimal_chars(secs),
    );
    crate::text::string_of(&crate::text::concat_chars(&head, &crate::text::chars_of(" seconds")))
}

/// Whether a line of the agent's output holds nothing but white space.
pub fn is_blank_line(line: &str) -> (r: bool)
    ensures
        r == (trim(line@).len() == 0),
{
    crate::text::trimmed(line).len() == 0
}

/// `v` is the string `s`.
pub open spec fn is_text(v: JsonValue, s: Seq<char>) -> bool {
    v matches JsonValue::Str(x) && x@ == s
}

/// `v` is an object whose members are the strings `entries`, in order.
pub open spec fn text_object(v: JsonValue, entries: Seq<(Seq<char>, Seq<char>)>) -> bool {
    v matches JsonValue::Object(f) && f@.len() == entries.len() && forall|i: int|
        0 <= i < entries.len() ==> (#[trigger] f@[i]).0@ == entries[i].0 && is_text(
            f@[i].1,
            entries[i].1,
        )
}

/// `v` is the notification `{method, params}` whose params are the strings `params`.
pub open spec fn notification(
    v: JsonValue,
    method: Seq<char>,
    params: Seq<(Seq<char>, Seq<char>)>,
) -> bool {
    v matches JsonValue::Object(f) && f@.len() == 2 && f@[0].0@ == "method"@ && is_text(
        f@[0].1,
        method,
    ) && f@[1].0@ == "params"@ && text_object(f@[1].1, params)
}

/// An object of string members.
fn text_members(entries: Vec<(&str, String)>) -> (r: JsonValue)
    ensures
        text_object(r, entries@.map_values(|e: (&str, String)| (e.0@, e.1@))),
{
    let mut fields: Vec<(String, JsonValue)> = Vec::new();
    let mut i: usize = 0;
    let ghost want = entries@.map_values(|e: (&str, String)| (e.0@, e.1@));
    while i < entries.len()
        invariant
            i <= entries.len(),
            want == entries@.map_values(|e: (&str, String)| (e.0@, e.1@)),
            fields@.len() == i,
            forall|j: int|
                0 <= j < i ==> (#[trigger] fields@[j]).0@ == want[j].0 && is_text(
                    fields@[j].1,
                    want[j].1,
                ),
        decreases entries.len() - i,
    {
        fields.push((owned(entries[i].0), JsonValue::Str(entries[i].1.clone())));
        i += 1;
    }
    JsonValue::Object(fields)
}

/// The notification `{method, params}` with string params.
fn notification_value(method: &str, params: Vec<(&str, String)>) -> (r: JsonValue)
    ensures
        notification(r, method@, params@.map_values(|e: (&str, String)| (e.0@, e.1@))),
{
    let p = text_members(params);
    let mut fields: Vec<(String, JsonValue)> = Vec::new();
    fields.push((owned("method"), JsonValue::Str(owned(method))));
    fields.push((owned("params"), p));
    JsonValue::Object(fields)
}

/// The event that a session for `workspace_id` is up.
pub fn connected_event(workspace_id: &str) -> (r: JsonValue)
    ensures
        notification(r, "codex/connected"@, seq![("workspaceId"@, workspace_id@)]),
{
    let params = vec![("workspaceId", owned(workspace_id))];
    let ghost pv = params@;
    let r = notification_value("codex/connected", params);
    assert(pv.map_values(|e: (&str, String)| (e.0@, e.1@)) =~= seq![("workspaceId"@, workspace_id@)]);
    r
}

/// The event for one non-blank line that the agent wrote to its error stream.
pub fn stderr_event(line: &str) -> (r: JsonValue)
    ensures
        notification(r, "codex/stderr"@, seq![("message"@, line@)]),
{
    let params = vec![("message", owned(line))];
    let ghost pv = params@;
    let r = notification_value("codex/stderr", params);
    assert(pv.map_values(|e: (&str, String)| (e.0@, e.1@)) =~= seq![("message"@, line@)]);
    r
}

/// The event for a line of the agent's output that is no JSON: the parser's
/// `error` and the `raw` line.
pub fn parse_error_event(error: &str, raw: &str) -> (r: JsonValue)
    ensures
        notification(r, "codex/parseError"@, seq![("error"@, error@), ("raw"@, raw@)]),
{
    let params = vec![("error", owned(error)), ("raw", owned(raw))];
    let ghost pv = params@;
    let r = notification_value("codex/parseError", params);
    assert(pv.map_values(|e: (&str, String)| (e.0@, e.1@)) =~= seq![
        ("error"@, error@),
        ("raw"@, raw@),
    ]);
    r
}

/// The parameters of the initialize handshake: who the client is, and that it
/// takes the experimental API.
pub fn build_initialize_params(client_version: &str) -> (r: JsonValue)
    ensures
        r matches JsonValue::Object(f) && f@.len() == 2 && f@[0].0@ == "clientInfo"@ && text_object(
            f@[0].1,
            seq![
                ("name"@, "codex_monitor"@),
                ("title"@, "Codex Monitor"@),
                ("version"@, client_version@),
            ],
        ) && f@[1].0@ == "capabilities"@ && (f@[1].1 matches JsonValue::Object(c) && c@.len() == 1
            && c@[0].0@ == "experimentalApi"@ && c@[0].1 == JsonValue::Bool(true)),
{
    let info_entries = vec![
        ("name", owned("codex_monitor")),
        ("title", owned("Codex Monitor")),
        ("version", owned(client_version)),
    ];
    let ghost iv = info_entries@;
    let info = text_members(info_entries);
    assert(iv.map_values(|e: (&str, String)| (e.0@, e.1@)) =~= seq![
        ("name"@, "codex_monitor"@),
        ("title"@, "Codex Monitor"@),
        ("version"@, client_version@),
    ]);
    let mut caps: Vec<(String, JsonValue)> = Vec::new();
    caps.push((owned("experimentalApi"), JsonValue::Bool(true)));
    let mut fields: Vec<(String, JsonValue)> = Vec::new();
    fields.push((owned("clientInfo"), info));
    fields.push((owned("capabilities"), JsonValue::Object(caps)));
    JsonValue::Object(fields)
}

/// The control-plane notification that carries agent message `message` of
/// workspace `workspace_id` to subscribed clients.
pub fn app_server_event(workspace_id: &str, message: JsonValue) -> (r: JsonValue)
    ensures
        r matches JsonValue::Object(f) && f@.len() == 2 && f@[0].0@ == "method"@ && is_text(
            f@[0].1,
            "app-server-event"@,
        ) && f@[1].0@ == "params"@ && (f@[1].1 matches JsonValue::Object(p) && p@.len() == 2
            && p@[0].0@ == "workspaceId"@ && is_text(p@[0].1, workspace_id@) && p@[1].0@
            == "message"@ && p@[1].1 == message),
{
    let mut params: Vec<(String, JsonValue)> = Vec::new();
    params.push((owned("workspaceId"), JsonValue::Str(owned(workspace_id))));
    params.push((owned("message"), message));
    let mut fields: Vec<(String, JsonValue)> = Vec::new();
    fields.push((owned("method"), JsonValue::Str(owned("app-server-event"))));
    fields.push((owned("params"), JsonValue::Object(params)));
    JsonValue::Object(fields)
}

} // verus!
