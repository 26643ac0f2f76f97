//! The consumer of a background thread's private stream: it collects the agent's
//! message text of one turn until the turn completes or fails, after which the
//! subscriber is to be removed.
use vstd::prelude::*;
use crate::json::{field, str_field, JsonValue};
use crate::session::msg_method;
use crate::text::{opt_view, owned};
use vstd::string::StringExecFns;

verus! {

/// Where a background turn stands.
pub enum TurnStatus {
    /// Still taking in events.
    Collecting,
    /// The turn completed; the text is final.
    Completed,
    /// The turn failed with this message.
    Failed(String),
}

/// A turn status as plain values.
pub enum StatusView {
    Collecting,
    Completed,
    Failed(Seq<char>),
}

/// The view of a turn status.
pub open spec fn status_view(s: TurnStatus) -> StatusView {
    match s {
        TurnStatus::Collecting => StatusView::Collecting,
        TurnStatus::Completed => StatusView::Completed,
        TurnStatus::Failed(m) => StatusView::Failed(m@),
    }
}

/// The member `inner` of the `params` of `event`, when it is a string.
pub open spec fn param_text(event: JsonValue, inner: Seq<char>) -> Option<Seq<char>> {
    match field(event, "params"@) {
        Some(p) => str_field(p, inner),
        None => None,
    }
}

/// The text and status after `event`, from `text` while collecting: a message delta
/// appends its text, `turn/completed` ends the turn, `turn/error` fails it with its
/// error (or `fallback`), and anything else changes nothing.
pub open spec fn next_state(text: Seq<char>, event: JsonValue, fallback: Seq<char>) -> (
    Seq<char>,
    StatusView,
) {
    let m = msg_method(event);
    if m == Some("item/agentMessage/delta"@) {
        match param_text(event, "delta"@) {
            Some(d) => (text + d, StatusView::Collecting),
            None => (text, StatusView::Collecting),
        }
    } else if m == Some("turn/completed"@) {
        (text, StatusView::Completed)
    } else if m == Some("turn/error"@) {
        (
            text,
            StatusView::Failed(
                match param_text(event, "error"@) {
                    Some(e) => e,
                    None => fallback,
                },
            ),
        )
    } else {
        (text, StatusView::Collecting)
    }
}

/// Whether `method` is `name`.
fn method_is(method: &Option<String>, name: &str) -> (r: bool)
    ensures
        r == (opt_view(*method) == Some(name@)),
{
    match method {
        Some(m) => crate::text::str_is(m, name),
        None => false,
    }
}

/// One background turn being collected.
pub struct BackgroundTurn {
    pub text: String,
    pub status: TurnStatus,
}

impl BackgroundTurn {
    /// A turn with no text yet.
    pub fn new() -> (r: BackgroundTurn)
        ensures
            r.text@.len() == 0,
            r.status is Collecting,
    {
        BackgroundTurn { text: String::new(), status: TurnStatus::Collecting }
    }

    /// Whether the turn is over, so that its subscriber is to be removed.
    pub fn is_done(&self) -> (r: bool)
        ensures
            r == !(self.status is Collecting),
    {
        match self.status {
            TurnStatus::Collecting => false,
            _ => true,
        }
    }

    /// Takes in one event of the private stream (see `next_state`).
    pub fn take_event(&mut self, event: &JsonValue, fallback_error: &str)
        requires
            old(self).status is Collecting,
        ensures
            (final(self).text@, status_view(final(self).status)) == next_state(
                old(self).text@,
                *event,
                fallback_error@,
            ),
    {
        let method = event.get_str("method");
        if method_is(&method, "item/agentMessage/delta") {
            match event.get("params") {
                Some(p) => match p.get_str("delta") {
                    Some(d) => {
                        self.text.append(d.as_str());
                    },
                    None => {},
                },
                None => {},
            }
        } else if method_is(&method, "turn/completed") {
            self.status = TurnStatus::Completed;
        } else if method_is(&method, "turn/error") {
            let message = match event.get("params") {
                Some(p) => match p.get_str("error") {
                    Some(e) => e,
                    None => owned(fallback_error),
                },
                None => owned(fallback_error),
            };
            self.status = TurnStatus::Failed(message);
        }
    }
}

/// The thread that a `thread/start` reply names: the first present of
/// `result.threadId`, `result.thread.id`, `threadId` and `thread.id`, when it is a
/// string.
pub open spec fn started_thread(reply: JsonValue) -> Option<Seq<char>> {
    let result = field(reply, "result"@);
    let in_result = match result {
        Some(r) => crate::json::or_else(
            field(r, "threadId"@),
            match field(r, "thread"@) {
                Some(t) => field(t, "id"@),
                None => None,
            },
        ),
        None => None,
    };
    let at_top = crate::json::or_else(
        field(reply, "threadId"@),
        match field(reply, "thread"@) {
            Some(t) => field(t, "id"@),
            None => None,
        },
    );
    match crate::json::or_else(in_result, at_top) {
        Some(JsonValue::Str(s)) => Some(s@),
        _ => None,
    }
}

/// The member `inner` of member `outer` of `v`.
fn member2<'a>(v: &'a JsonValue, outer: &str, inner: &str) -> (r: Option<&'a JsonValue>)
    ensures
        crate::json::opt_ref(r) == match field(*v, outer@) {
            Some(o) => field(o, inner@),
            None => None,
        },
{
    match v.get(outer) {
        Some(o) => o.get(inner),
        None => None,
    }
}

/// The thread that a `thread/start` reply names (see `started_thread`).
pub fn started_thread_id(reply: &JsonValue) -> (r: Option<String>)
    ensures
        opt_view(r) == started_thread(*reply),
{
    let in_result = match reply.get("result") {
        Some(res) => match res.get("threadId") {
            Some(t) => Some(t),
            None => member2(res, "thread", "id"),
        },
        None => None,
    };
    let found = match in_result {
        Some(t) => Some(t),
        None => match reply.get("threadId") {
            Some(t) => Some(t),
            None => member2(reply, "thread", "id"),
        },
    };
    match found {
        Some(JsonValue::Str(s)) => Some(s.clone()),
        _ => None,
    }
}

/// The error that a reply carries: its `error.message`, or `fallback` when the
/// error has no message; none when the reply has no error.
pub fn reply_error(reply: &JsonValue, fallback: &str) -> (r: Option<String>)
    ensures
        match field(*reply, "error"@) {
            Some(e) => opt_view(r) == Some(
                match str_field(e, "message"@) {
                    Some(m) => m,
                    None => fallback@,
                },
            ),
            None => r is None,
        },
{
    match reply.get("error") {
        Some(e) => match e.get_str("message") {
            Some(m) => Some(m),
            None => Some(owned(fallback)),
        },
        None => None,
    }
}

/// The text from the first `{` to the last `}` of `raw`, when both are there in
/// that order: where a JSON object stands in an answer with text around it.
pub open spec fn braced_part(raw: Seq<char>) -> Option<Seq<char>> {
    if exists|i: int, j: int|
        0 <= i < j < raw.len() && raw[i] == '{' && raw[j] == '}' && (forall|k: int|
            0 <= k < i ==> raw[k] != '{') && (forall|k: int| j < k < raw.len() ==> raw[k] != '}') {
        let (i, j) = choose|i: int, j: int|
            0 <= i < j < raw.len() && raw[i] == '{' && raw[j] == '}' && (forall|k: int|
                0 <= k < i ==> raw[k] != '{') && (forall|k: int| j < k < raw.len() ==> raw[k] != '}');
        Some(raw.subrange(i, j + 1))
    } else {
        None
    }
}

/// The part of `raw` from its first `{` to its last `}` (see `braced_part`).
pub fn extract_braced(raw: &str) -> (r: Option<String>)
    ensures
        opt_view(r) == braced_part(raw@),
{
    let chars = crate::text::chars_of(raw);
    let n = chars.len();
    let start = crate::text::find_from(&chars, '{', 0);
    proof {
        crate::text::lemma_next_index_bounds(chars@, '{', 0);
        lemma_first_index(chars@, '{', 0);
    }
    let mut end: usize = n;
    while end > 0 && chars[end - 1] != '}'
        invariant
            end <= n == chars@.len(),
            forall|k: int| end <= k < n ==> chars@[k] != '}',
        decreases end,
    {
        end -= 1;
    }
    if start >= n || end == 0 || end - 1 <= start {
        proof {
            if exists|i: int, j: int|
                0 <= i < j < n && chars@[i] == '{' && chars@[j] == '}' && (forall|k: int|
                    0 <= k < i ==> chars@[k] != '{') && (forall|k: int|
                    j < k < n ==> chars@[k] != '}') {
                let (i, j) = choose|i: int, j: int|
                    0 <= i < j < n && chars@[i] == '{' && chars@[j] == '}' && (forall|k: int|
                        0 <= k < i ==> chars@[k] != '{') && (forall|k: int|
                        j < k < n ==> chars@[k] != '}');
                assert(i == start as int);
                assert(j == end - 1);
            }
        }
        return None;
    }
    proof {
        let (i, j) = choose|i: int, j: int|
            0 <= i < j < n && chars@[i] == '{' && chars@[j] == '}' && (forall|k: int|
                0 <= k < i ==> chars@[k] != '{') && (forall|k: int| j < k < n ==> chars@[k] != '}');
        assert(chars@[start as int] == '{');
        assert(chars@[end - 1] == '}');
        assert(i == start as int);
        assert(j == end - 1);
    }
    Some(crate::text::string_of(&crate::text::slice_chars(&chars, start, end)))
}

/// What `next_index` finds: a `c` with none before it, or the end when there is none.
proof fn lemma_first_index(s: Seq<char>, c: char, i: int)
    requires
        0 <= i <= s.len(),
    ensures
        forall|k: int| i <= k < crate::text::next_index(s, c, i) ==> s[k] != c,
        crate::text::next_index(s, c, i) < s.len() ==> s[crate::text::next_index(s, c, i)] == c,
    decreases s.len() - i,
{
    if i < s.len() && s[i] != c {
        lemma_first_index(s, c, i + 1);
    }
}

} // verus!
