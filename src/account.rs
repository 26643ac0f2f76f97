//! The account answer of the control plane: what the agent reports, completed from
//! the sign-in token on disk when the agent reports a ChatGPT account without its
//! details.
use vstd::prelude::*;
use crate::json::{field, index_from, lemma_index_from_bound, nested_str, or_else, str_field, JsonValue};
use crate::text::{find_from, lemma_next_index_bounds, lower_seq, next_index, opt_view, owned, trim};

verus! {

/// What the sign-in token says about the account.
pub struct AuthAccount {
    pub email: Option<String>,
    pub plan_type: Option<String>,
}

/// The bytes that base64 (URL-safe alphabet, no padding) decodes `s` to.
pub uninterp spec fn url_safe_no_pad_decoded(s: Seq<char>) -> Option<Seq<u8>>;

/// The bytes that base64 (URL-safe alphabet, padded) decodes `s` to.
pub uninterp spec fn url_safe_decoded(s: Seq<char>) -> Option<Seq<u8>>;

/// The view of optional bytes.
pub open spec fn opt_bytes(o: Option<Vec<u8>>) -> Option<Seq<u8>> {
    match o {
        Some(v) => Some(v@),
        None => None,
    }
}

/// Relies on base64's `URL_SAFE_NO_PAD` engine: `decode` depends on the text alone.
#[verifier::external_body]
fn decode_url_safe_no_pad(s: &str) -> (r: Option<Vec<u8>>)
    ensures
        opt_bytes(r) == url_safe_no_pad_decoded(s@),
{
    base64::Engine::decode(&base64::engine::general_purpose::URL_SAFE_NO_PAD, s.as_bytes()).ok()
}

/// Relies on base64's `URL_SAFE` engine: `decode` depends on the text alone.
#[verifier::external_body]
fn decode_url_safe(s: &str) -> (r: Option<Vec<u8>>)
    ensures
        opt_bytes(r) == url_safe_decoded(s@),
{
    base64::Engine::decode(&base64::engine::general_purpose::URL_SAFE, s.as_bytes()).ok()
}

/// The second `.`-separated part of a token: its payload.
pub open spec fn payload_part(token: Seq<char>) -> Option<Seq<char>> {
    let first = next_index(token, '.', 0);
    if first >= token.len() {
        None
    } else {
        Some(token.subrange(first + 1, next_index(token, '.', first + 1)))
    }
}

/// The decoded payload of a signed token: its second part, decoded as URL-safe
/// base64 without padding, else with padding.
pub fn jwt_payload_bytes(token: &str) -> (r: Option<Vec<u8>>)
    ensures
        opt_bytes(r) == match payload_part(token@) {
            Some(p) => or_else(url_safe_no_pad_decoded(p), url_safe_decoded(p)),
            None => None,
        },
{
    let chars = crate::text::chars_of(token);
    let first = find_from(&chars, '.', 0);
    if first >= chars.len() {
        return None;
    }
    proof {
        lemma_next_index_bounds(chars@, '.', first + 1);
    }
    let end = find_from(&chars, '.', first + 1);
    let part = crate::text::string_of(&crate::text::slice_chars(&chars, first + 1, end));
    match decode_url_safe_no_pad(&part) {
        Some(bytes) => Some(bytes),
        None => decode_url_safe(&part),
    }
}

/// The sign-in token that the credentials file names: `tokens.idToken`, else
/// `tokens.id_token`, when it is a string.
pub open spec fn id_token_spec(auth: JsonValue) -> Option<Seq<char>> {
    match field(auth, "tokens"@) {
        Some(t) => match or_else(field(t, "idToken"@), field(t, "id_token"@)) {
            Some(JsonValue::Str(s)) => Some(s@),
            _ => None,
        },
        None => None,
    }
}

/// The sign-in token that the credentials file names (see `id_token_spec`).
pub fn id_token_of(auth: &JsonValue) -> (r: Option<String>)
    ensures
        opt_view(r) == id_token_spec(*auth),
{
    match auth.get("tokens") {
        Some(t) => {
            let chosen = match t.get("idToken") {
                Some(v) => Some(v),
                None => t.get("id_token"),
            };
            match chosen {
                Some(JsonValue::Str(s)) => Some(s.clone()),
                _ => None,
            }
        },
        None => None,
    }
}

/// A string value without surrounding white space, when something is left.
pub open spec fn trimmed_text(v: Option<JsonValue>) -> Option<Seq<char>> {
    match v {
        Some(JsonValue::Str(s)) => if trim(s@).len() > 0 {
            Some(trim(s@))
        } else {
            None
        },
        _ => None,
    }
}

/// A string value without surrounding white space, when something is left.
fn trimmed_value(v: Option<&JsonValue>) -> (r: Option<String>)
    ensures
        opt_view(r) == trimmed_text(crate::json::opt_ref(v)),
{
    match v {
        Some(JsonValue::Str(s)) => {
            let t = crate::text::trimmed(s);
            if t.len() > 0 {
                Some(crate::text::string_of(&t))
            } else {
                None
            }
        },
        _ => None,
    }
}

/// The member `key` of `v` when `v` is an object.
pub open spec fn object_member(v: Option<JsonValue>, key: Seq<char>) -> Option<JsonValue> {
    match v {
        Some(JsonValue::Object(_)) => field(v->0, key),
        _ => None,
    }
}

/// The plan that the token's claims give: the `chatgpt_plan_type` of the auth claim
/// object, else the top-level one.
pub open spec fn claimed_plan(claims: JsonValue) -> Option<Seq<char>> {
    trimmed_text(
        or_else(
            object_member(field(claims, "https://api.openai.com/auth"@), "chatgpt_plan_type"@),
            field(claims, "chatgpt_plan_type"@),
        ),
    )
}

/// The e-mail address that the token's claims give: the top-level `email`, else that
/// of the profile claim object.
pub open spec fn claimed_email(claims: JsonValue) -> Option<Seq<char>> {
    trimmed_text(
        or_else(
            field(claims, "email"@),
            object_member(field(claims, "https://api.openai.com/profile"@), "email"@),
        ),
    )
}

/// The member `key` of `v` when `v` is an object.
fn member_of<'a>(v: Option<&'a JsonValue>, key: &str) -> (r: Option<&'a JsonValue>)
    ensures
        crate::json::opt_ref(r) == object_member(crate::json::opt_ref(v), key@),
{
    match v {
        Some(JsonValue::Object(_)) => v.unwrap().get(key),
        _ => None,
    }
}

/// The account that the token's claims describe; none when they give neither an
/// e-mail address nor a plan.
pub fn auth_account_from_claims(claims: &JsonValue) -> (r: Option<AuthAccount>)
    ensures
        match r {
            Some(a) => opt_view(a.email) == claimed_email(*claims) && opt_view(a.plan_type)
                == claimed_plan(*claims) && (a.email is Some || a.plan_type is Some),
            None => claimed_email(*claims) is None && claimed_plan(*claims) is None,
        },
{
    let auth = claims.get("https://api.openai.com/auth");
    let profile = claims.get("https://api.openai.com/profile");
    let plan_source = match member_of(auth, "chatgpt_plan_type") {
        Some(v) => Some(v),
        None => claims.get("chatgpt_plan_type"),
    };
    let email_source = match claims.get("email") {
        Some(v) => Some(v),
        None => member_of(profile, "email"),
    };
    let plan = trimmed_value(plan_source);
    let email = trimmed_value(email_source);
    if email.is_none() && plan.is_none() {
        return None;
    }
    Some(AuthAccount { email, plan_type: plan })
}


/// Member `inner` of member `outer` of `v`.
pub open spec fn sub_field(v: JsonValue, outer: Seq<char>, inner: Seq<char>) -> Option<JsonValue> {
    match field(v, outer) {
        Some(o) => field(o, inner),
        None => None,
    }
}

/// `key` is among the keys of `f`.
pub open spec fn has_key(f: Seq<(String, JsonValue)>, key: Seq<char>) -> bool {
    0 <= index_from(f, key, 0) < f.len()
}

/// The string member `key` of the members `f`.
pub open spec fn str_member(f: Seq<(String, JsonValue)>, key: Seq<char>) -> Option<Seq<char>> {
    if has_key(f, key) {
        match f[index_from(f, key, 0)].1 {
            JsonValue::Str(s) => Some(s@),
            _ => None,
        }
    } else {
        None
    }
}

/// The account members that an agent's answer gives: those of its `account` object
/// (or of `result.account` when it has no `account`), else its own members when they
/// include `email`, `planType` or `type`.
pub open spec fn account_members(v: JsonValue) -> Option<Seq<(String, JsonValue)>> {
    match or_else(field(v, "account"@), sub_field(v, "result"@, "account"@)) {
        Some(JsonValue::Object(f)) => Some(f@),
        _ => match v {
            JsonValue::Object(root) => if has_key(root@, "email"@) || has_key(root@, "planType"@)
                || has_key(root@, "type"@) {
                Some(root@)
            } else {
                None
            },
            _ => None,
        },
    }
}

/// Whether the account answer reported by the agent, with members `f`, may be
/// completed from the token: it is empty, or its type is missing, `chatgpt` or
/// `unknown` in any case.
pub open spec fn fallback_allowed(f: Seq<(String, JsonValue)>) -> bool {
    f.len() == 0 || match str_member(f, "type"@) {
        None => true,
        Some(t) => lower_seq(t) == "chatgpt"@ || lower_seq(t) == "unknown"@,
    }
}

/// The members that the token adds to account members `f`: its e-mail address and
/// plan where `f` lacks them, and the type `chatgpt` where `f` has none.
pub open spec fn added_members(
    f: Seq<(String, JsonValue)>,
    fallback: Option<(Option<Seq<char>>, Option<Seq<char>>)>,
) -> Seq<(Seq<char>, Seq<char>)> {
    match fallback {
        None => Seq::empty(),
        Some(fb) => if !fallback_allowed(f) {
            Seq::empty()
        } else {
            (if !has_key(f, "email"@) && fb.0 is Some {
                seq![("email"@, fb.0->0)]
            } else {
                Seq::empty()
            }) + (if !has_key(f, "planType"@) && fb.1 is Some {
                seq![("planType"@, fb.1->0)]
            } else {
                Seq::empty()
            }) + (if !has_key(f, "type"@) {
                seq![("type"@, "chatgpt"@)]
            } else {
                Seq::empty()
            })
        },
    }
}

/// `a` is `f` followed by string members `added`.
pub open spec fn extended_by(
    a: Seq<(String, JsonValue)>,
    f: Seq<(String, JsonValue)>,
    added: Seq<(Seq<char>, Seq<char>)>,
) -> bool {
    &&& a.len() == f.len() + added.len()
    &&& a.take(f.len() as int) == f
    &&& forall|j: int|
        0 <= j < added.len() ==> (#[trigger] a[f.len() + j]).0@ == added[j].0 && crate::protocol::is_text(
            a[f.len() + j].1,
            added[j].1,
        )
}

/// Whether the agent's answer says that an API sign-in is required: the first
/// present of `requiresOpenaiAuth`, `requires_openai_auth` and the same under
/// `result`, when it is a boolean.
pub open spec fn requires_auth_of(v: JsonValue) -> Option<bool> {
    match or_else(
        field(v, "requiresOpenaiAuth"@),
        or_else(
            field(v, "requires_openai_auth"@),
            or_else(
                sub_field(v, "result"@, "requiresOpenaiAuth"@),
                sub_field(v, "result"@, "requires_openai_auth"@),
            ),
        ),
    ) {
        Some(JsonValue::Bool(b)) => Some(b),
        _ => None,
    }
}

/// The view of a token's account.
pub open spec fn fallback_view(a: Option<AuthAccount>) -> Option<(Option<Seq<char>>, Option<Seq<char>>)> {
    match a {
        Some(x) => Some((opt_view(x.email), opt_view(x.plan_type))),
        None => None,
    }
}

/// The position of member `key` in `fields`.
fn key_position(fields: &Vec<(String, JsonValue)>, key: &str) -> (r: Option<usize>)
    ensures
        match r {
            Some(i) => i as int == index_from(fields@, key@, 0) && i < fields@.len(),
            None => !has_key(fields@, key@),
        },
{
    let k = owned(key);
    let mut i: usize = 0;
    while i < fields.len()
        invariant
            i <= fields.len(),
            k@ == key@,
            index_from(fields@, key@, 0) == index_from(fields@, key@, i as int),
        decreases fields.len() - i,
    {
        if fields[i].0 == k {
            return Some(i);
        }
        i += 1;
    }
    None
}

/// Whether `v` is an object.
fn is_object(v: &JsonValue) -> (r: bool)
    ensures
        r == (*v is Object),
{
    match v {
        JsonValue::Object(_) => true,
        _ => false,
    }
}

/// Takes the account members out of the agent's answer `v` (see `account_members`).
fn take_account_members(v: JsonValue) -> (r: Option<Vec<(String, JsonValue)>>)
    ensures
        match r {
            Some(f) => account_members(v) == Some(f@),
            None => account_members(v) is None,
        },
{
    let ghost v0 = v;
    match v {
        JsonValue::Object(mut fields) => {
            let ghost all = fields@;
            proof {
                lemma_index_from_bound(all, "account"@, 0);
                lemma_index_from_bound(all, "result"@, 0);
            }
            let pick: Option<(usize, Option<usize>)> = match key_position(&fields, "account") {
                Some(i) => if is_object(&fields[i].1) {
                    Some((i, None))
                } else {
                    None
                },
                None => match key_position(&fields, "result") {
                    Some(i) => match &fields[i].1 {
                        JsonValue::Object(inner) => {
                            proof {
                                lemma_index_from_bound(inner@, "account"@, 0);
                            }
                            match key_position(inner, "account") {
                                Some(j) => if is_object(&inner[j].1) {
                                    Some((i, Some(j)))
                                } else {
                                    None
                                },
                                None => None,
                            }
                        },
                        _ => None,
                    },
                    None => None,
                },
            };
            match pick {
                Some((i, None)) => {
                    let member = fields.remove(i);
                    assert(member == all[i as int]);
                    match member.1 {
                        JsonValue::Object(inner) => Some(inner),
                        _ => None,
                    }
                },
                Some((i, Some(j))) => {
                    let member = fields.remove(i);
                    assert(member == all[i as int]);
                    match member.1 {
                        JsonValue::Object(mut inner) => {
                            let ghost inner_all = inner@;
                            proof {
                                lemma_index_from_bound(inner_all, "account"@, 0);
                            }
                            let acc = inner.remove(j);
                            assert(acc == inner_all[j as int]);
                            match acc.1 {
                                JsonValue::Object(f) => Some(f),
                                _ => None,
                            }
                        },
                        _ => None,
                    }
                },
                None => {
                    if key_position(&fields, "email").is_some() || key_position(
                        &fields,
                        "planType",
                    ).is_some() || key_position(&fields, "type").is_some() {
                        Some(fields)
                    } else {
                        None
                    }
                },
            }
        },
        _ => None,
    }
}

/// Member `inner` of member `outer` of `v`.
fn sub_member<'a>(v: &'a JsonValue, outer: &str, inner: &str) -> (r: Option<&'a JsonValue>)
    ensures
        crate::json::opt_ref(r) == sub_field(*v, outer@, inner@),
{
    match v.get(outer) {
        Some(o) => o.get(inner),
        None => None,
    }
}

/// Whether the agent's answer says that an API sign-in is required (see
/// `requires_auth_of`).
fn requires_auth(v: &JsonValue) -> (r: Option<bool>)
    ensures
        r == requires_auth_of(*v),
{
    let found = match v.get("requiresOpenaiAuth") {
        Some(x) => Some(x),
        None => match v.get("requires_openai_auth") {
            Some(x) => Some(x),
            None => match sub_member(v, "result", "requiresOpenaiAuth") {
                Some(x) => Some(x),
                None => sub_member(v, "result", "requires_openai_auth"),
            },
        },
    };
    match found {
        Some(JsonValue::Bool(b)) => Some(*b),
        _ => None,
    }
}

/// The account answer: the members that the agent reports (see `account_members`),
/// completed from the sign-in token `fallback` where allowed (see
/// `added_members`), as `{account, requiresOpenaiAuth?}`; `account` is null when it
/// has no members.
pub open spec fn account_answer(
    r: JsonValue,
    response: Option<JsonValue>,
    fallback: Option<(Option<Seq<char>>, Option<Seq<char>>)>,
) -> bool {
    let f = match response {
        Some(v) => match account_members(v) {
            Some(m) => m,
            None => Seq::empty(),
        },
        None => Seq::empty(),
    };
    let added = added_members(f, fallback);
    let needs = match response {
        Some(v) => requires_auth_of(v),
        None => None,
    };
    r matches JsonValue::Object(top) && top@.len() >= 1 && top@[0].0@ == "account"@ && (if f.len()
        + added.len() == 0 {
        top@[0].1 == JsonValue::Null
    } else {
        top@[0].1 matches JsonValue::Object(a) && extended_by(a@, f, added)
    }) && match needs {
        Some(b) => top@.len() == 2 && top@[1].0@ == "requiresOpenaiAuth"@ && top@[1].1
            == JsonValue::Bool(b),
        None => top@.len() == 1,
    }
}

/// Builds the account answer from the agent's `response` and the account that the
/// sign-in token gives (see `account_answer`).
pub fn build_account_response(response: Option<JsonValue>, fallback: Option<AuthAccount>) -> (r:
    JsonValue)
    ensures
        account_answer(r, response, fallback_view(fallback)),
{
    let ghost resp = response;
    let needs = match &response {
        Some(v) => requires_auth(v),
        None => None,
    };
    let mut account: Vec<(String, JsonValue)> = match response {
        Some(v) => match take_account_members(v) {
            Some(f) => f,
            None => Vec::new(),
        },
        None => Vec::new(),
    };
    let ghost f = account@;
    let ghost added = added_members(f, fallback_view(fallback));
    match fallback {
        Some(fb) => {
            let allowed = if account.len() == 0 {
                true
            } else {
                match key_position(&account, "type") {
                    Some(i) => match &account[i].1 {
                        JsonValue::Str(t) => {
                            let lower = crate::text::lower_chars(&crate::text::chars_of(t));
                            crate::text::chars_eq(&lower, &crate::text::chars_of("chatgpt"))
                                || crate::text::chars_eq(&lower, &crate::text::chars_of("unknown"))
                        },
                        _ => true,
                    },
                    None => true,
                }
            };
            if allowed {
                let has_email = key_position(&account, "email").is_some();
                let has_plan = key_position(&account, "planType").is_some();
                let has_type = key_position(&account, "type").is_some();
                let ghost e_part: Seq<(Seq<char>, Seq<char>)> = if !has_email && fb.email is Some {
                    seq![("email"@, fb.email->0@)]
                } else {
                    Seq::empty()
                };
                let ghost p_part: Seq<(Seq<char>, Seq<char>)> = if !has_plan && fb.plan_type is Some {
                    seq![("planType"@, fb.plan_type->0@)]
                } else {
                    Seq::empty()
                };
                if !has_email {
                    match fb.email {
                        Some(email) => {
                            account.push((owned("email"), JsonValue::Str(email)));
                        },
                        None => {},
                    }
                }
                assert(extended_by(account@, f, e_part)) by {
                    assert(account@.take(f.len() as int) =~= f);
                }
                if !has_plan {
                    match fb.plan_type {
                        Some(plan) => {
                            account.push((owned("planType"), JsonValue::Str(plan)));
                        },
                        None => {},
                    }
                }
                assert(extended_by(account@, f, e_part + p_part)) by {
                    assert forall|j: int| 0 <= j < (e_part + p_part).len() implies (#[trigger] account@[f.len() + j]).0@
                        == (e_part + p_part)[j].0 && crate::protocol::is_text(
                        account@[f.len() + j].1,
                        (e_part + p_part)[j].1,
                    ) by {}
                    assert(account@.take(f.len() as int) =~= f);
                }
                if !has_type {
                    account.push((owned("type"), JsonValue::Str(owned("chatgpt"))));
                }
                assert(added =~= e_part + p_part + (if !has_type {
                    seq![("type"@, "chatgpt"@)]
                } else {
                    Seq::empty()
                }));
                assert(extended_by(account@, f, added)) by {
                    assert forall|j: int| 0 <= j < added.len() implies (#[trigger] account@[f.len() + j]).0@
                        == added[j].0 && crate::protocol::is_text(account@[f.len() + j].1, added[j].1) by {}
                    assert(account@.take(f.len() as int) =~= f);
                }
            } else {
                assert(added =~= Seq::<(Seq<char>, Seq<char>)>::empty());
                assert(account@.take(f.len() as int) =~= f);
            }
        },
        None => {
            assert(account@.take(f.len() as int) =~= f);
        },
    }
    let account_value = if account.len() == 0 {
        JsonValue::Null
    } else {
        JsonValue::Object(account)
    };
    let mut top: Vec<(String, JsonValue)> = Vec::new();
    top.push((owned("account"), account_value));
    match needs {
        Some(b) => {
            top.push((owned("requiresOpenaiAuth"), JsonValue::Bool(b)));
        },
        None => {},
    }
    JsonValue::Object(top)
}

} // verus!
