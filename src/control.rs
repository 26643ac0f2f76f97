//! The control plane's per-connection logic: the token gate in front of every
//! connection, reading typed parameters out of a request, and the reply shapes.
use vstd::prelude::*;
use crate::json::{as_u64_spec, field, str_field, JsonNumber, JsonValue};
use crate::text::{opt_view, owned, str_is};

verus! {

/// The token that an `auth` request offers: its params when they are a string, else
/// their `token` member when that is a string.
pub open spec fn offered_token(params: JsonValue) -> Option<Seq<char>> {
    match params {
        JsonValue::Str(s) => Some(s@),
        JsonValue::Object(_) => str_field(params, "token"@),
        _ => None,
    }
}

/// The token that an `auth` request offers (see `offered_token`).
pub fn parse_auth_token(params: &JsonValue) -> (r: Option<String>)
    ensures
        opt_view(r) == offered_token(*params),
{
    match params {
        JsonValue::Str(s) => Some(s.clone()),
        JsonValue::Object(_) => params.get_str("token"),
        _ => None,
    }
}

/// A string, or the empty string for none.
pub open spec fn or_empty(o: Option<Seq<char>>) -> Seq<char> {
    match o {
        Some(s) => s,
        None => Seq::empty(),
    }
}

/// What a connection does with one incoming request.
#[derive(PartialEq, Eq, Structural, Clone, Copy, Debug)]
pub enum GateDecision {
    /// Not authenticated and not an `auth` request: answer `unauthorized`.
    Unauthorized,
    /// An `auth` request whose token does not match: answer `invalid token`.
    InvalidToken,
    /// An `auth` request whose token matches: answer `{ok: true}` and start
    /// forwarding broadcast events to the connection.
    Accepted,
    /// Authenticated: hand the request to its handler.
    Dispatch,
}

/// The authentication state of one control-plane connection.
pub struct ConnectionGate {
    pub authenticated: bool,
}

impl ConnectionGate {
    /// A connection: authenticated from the start when no token is configured.
    pub fn new(token: Option<&str>) -> (r: ConnectionGate)
        ensures
            r.authenticated == token is None,
    {
        ConnectionGate { authenticated: token.is_none() }
    }

    /// Decides what to do with request `method` carrying `params`, given the
    /// configured `token`; a matching `auth` request authenticates the connection.
    pub fn on_request(&mut self, token: Option<&str>, method: &str, params: &JsonValue) -> (r:
        GateDecision)
        ensures
            old(self).authenticated ==> r == GateDecision::Dispatch && final(self).authenticated,
            !old(self).authenticated ==> {
                let expected = match token {
                    Some(t) => t@,
                    None => Seq::empty(),
                };
                if method@ != "auth"@ {
                    r == GateDecision::Unauthorized && !final(self).authenticated
                } else if expected != or_empty(offered_token(*params)) {
                    r == GateDecision::InvalidToken && !final(self).authenticated
                } else {
                    r == GateDecision::Accepted && final(self).authenticated
                }
            },
    {
        if self.authenticated {
            return GateDecision::Dispatch;
        }
        if !str_is(method, "auth") {
            return GateDecision::Unauthorized;
        }
        let expected = match token {
            Some(t) => crate::text::chars_of(t),
            None => Vec::new(),
        };
        let provided = match parse_auth_token(params) {
            Some(p) => crate::text::chars_of(&p),
            None => Vec::new(),
        };
        if !crate::text::chars_eq(&expected, &provided) {
            return GateDecision::InvalidToken;
        }
        self.authenticated = true;
        GateDecision::Accepted
    }
}

/// The message of a missing or mistyped parameter.
pub open spec fn invalid_param_message(key: Seq<char>) -> Seq<char> {
    "missing or invalid `"@ + key + "`"@
}

/// The message of parameters that are no object.
pub open spec fn missing_param_message(key: Seq<char>) -> Seq<char> {
    "missing `"@ + key + "`"@
}

/// `prefix`, then `key`, then a backquote.
fn quoted_message(prefix: &str, key: &str) -> (r: String)
    ensures
        r@ == prefix@ + key@ + "`"@,
{
    let head = crate::text::concat_chars(&crate::text::chars_of(prefix), &crate::text::chars_of(key));
    crate::text::string_of(&crate::text::concat_chars(&head, &crate::text::chars_of("`")))
}

/// The string parameter `key`: an error when `value` is no object, or when the member
/// is missing or no string.
pub fn parse_string(value: &JsonValue, key: &str) -> (r: Result<String, String>)
    ensures
        match r {
            Ok(s) => str_field(*value, key@) == Some(s@),
            Err(e) => str_field(*value, key@) is None && e@ == if value is Object {
                invalid_param_message(key@)
            } else {
                missing_param_message(key@)
            },
        },
{
    match value {
        JsonValue::Object(_) => match value.get_str(key) {
            Some(s) => Ok(s),
            None => Err(quoted_message("missing or invalid `", key)),
        },
        _ => Err(quoted_message("missing `", key)),
    }
}

/// The string parameter `key`, when present.
pub fn parse_optional_string(value: &JsonValue, key: &str) -> (r: Option<String>)
    ensures
        opt_view(r) == str_field(*value, key@),
{
    value.get_str(key)
}

/// The parameter `key` as a `u32`, when it is an unsigned integer that fits.
pub fn parse_optional_u32(value: &JsonValue, key: &str) -> (r: Option<u32>)
    ensures
        r == match field(*value, key@) {
            Some(v) => match as_u64_spec(v) {
                Some(n) => if n <= u32::MAX {
                    Some(n as u32)
                } else {
                    None
                },
                None => None,
            },
            None => None,
        },
{
    match value.get(key) {
        Some(v) => match v.as_u64() {
            Some(n) => if n <= u32::MAX as u64 {
                Some(n as u32)
            } else {
                None
            },
            None => None,
        },
        None => None,
    }
}

/// The strings among `items`, in order.
pub open spec fn strings_among(items: Seq<JsonValue>) -> Seq<Seq<char>>
    decreases items.len(),
{
    if items.len() == 0 {
        Seq::empty()
    } else {
        match items.last() {
            JsonValue::Str(s) => strings_among(items.drop_last()).push(s@),
            _ => strings_among(items.drop_last()),
        }
    }
}

/// The strings of the array parameter `key`, skipping other elements; none when the
/// member is missing or no array.
pub fn parse_optional_string_array(value: &JsonValue, key: &str) -> (r: Option<Vec<String>>)
    ensures
        match r {
            Some(v) => field(*value, key@) matches Some(JsonValue::Array(items))
                && crate::assoc::strs_view(v@) == strings_among(items@),
            None => !(field(*value, key@) matches Some(JsonValue::Array(_))),
        },
{
    match value.get(key) {
        Some(JsonValue::Array(items)) => {
            let mut out: Vec<String> = Vec::new();
            let mut i: usize = 0;
            while i < items.len()
                invariant
                    i <= items.len(),
                    crate::assoc::strs_view(out@) == strings_among(items@.take(i as int)),
                decreases items.len() - i,
            {
                assert(items@.take(i + 1).drop_last() == items@.take(i as int));
                match &items[i] {
                    JsonValue::Str(s) => {
                        out.push(s.clone());
                        assert(crate::assoc::strs_view(out@) =~= strings_among(
                            items@.take(i as int),
                        ).push(s@));
                    },
                    _ => {},
                }
                i += 1;
            }
            assert(items@.take(items.len() as int) == items@);
            Some(out)
        },
        _ => None,
    }
}

/// The strings of the array parameter `key`; an error when it is missing or no array.
pub fn parse_string_array(value: &JsonValue, key: &str) -> (r: Result<Vec<String>, String>)
    ensures
        match r {
            Ok(v) => field(*value, key@) matches Some(JsonValue::Array(items))
                && crate::assoc::strs_view(v@) == strings_among(items@),
            Err(e) => !(field(*value, key@) matches Some(JsonValue::Array(_))) && e@
                == missing_param_message(key@),
        },
{
    match parse_optional_string_array(value, key) {
        Some(v) => Ok(v),
        None => Err(quoted_message("missing `", key)),
    }
}

/// An object with the members `fields`.
pub open spec fn object_of(v: JsonValue, fields: Seq<(Seq<char>, JsonValue)>) -> bool {
    v matches JsonValue::Object(f) && f@.len() == fields.len() && forall|i: int|
        0 <= i < fields.len() ==> (#[trigger] f@[i]).0@ == fields[i].0 && f@[i].1 == fields[i].1
}

/// `v` is `{id, error: {message}}`.
pub open spec fn error_reply(v: JsonValue, id: u64, message: Seq<char>) -> bool {
    exists|err: JsonValue|
        object_of(v, seq![("id"@, JsonValue::Number(JsonNumber::Unsigned(id))), ("error"@, err)])
            && (err matches JsonValue::Object(f) && f@.len() == 1 && f@[0].0@ == "message"@ && (
        f@[0].1 matches JsonValue::Str(m) && m@ == message))
}

/// The error reply to request `id`: `{id, error: {message}}`; none for a
/// notification, which gets no reply.
pub fn build_error_response(id: Option<u64>, message: &str) -> (r: Option<JsonValue>)
    ensures
        id is None ==> r is None,
        id is Some ==> (r matches Some(v) && error_reply(v, id->0, message@)),
{
    match id {
        None => None,
        Some(n) => {
            let mut inner: Vec<(String, JsonValue)> = Vec::new();
            inner.push((owned("message"), JsonValue::Str(owned(message))));
            let err = JsonValue::Object(inner);
            let mut outer: Vec<(String, JsonValue)> = Vec::new();
            outer.push((owned("id"), JsonValue::Number(JsonNumber::Unsigned(n))));
            outer.push((owned("error"), err));
            let v = JsonValue::Object(outer);
            assert(object_of(
                v,
                seq![("id"@, JsonValue::Number(JsonNumber::Unsigned(n))), ("error"@, err)],
            ));
            Some(v)
        },
    }
}

/// The successful reply to request `id`: `{id, result}`; none for a notification.
pub fn build_result_response(id: Option<u64>, result: JsonValue) -> (r: Option<JsonValue>)
    ensures
        id is None ==> r is None,
        id is Some ==> (r matches Some(v) && object_of(
            v,
            seq![("id"@, JsonValue::Number(JsonNumber::Unsigned(id->0))), ("result"@, result)],
        )),
{
    match id {
        None => None,
        Some(n) => {
            let ghost res = result;
            let mut outer: Vec<(String, JsonValue)> = Vec::new();
            outer.push((owned("id"), JsonValue::Number(JsonNumber::Unsigned(n))));
            outer.push((owned("result"), result));
            let v = JsonValue::Object(outer);
            assert(object_of(
                v,
                seq![("id"@, JsonValue::Number(JsonNumber::Unsigned(n))), ("result"@, res)],
            ));
            Some(v)
        },
    }
}

} // verus!
