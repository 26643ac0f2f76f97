//! The JSON values that the protocol logic reads: the agent's messages and the
//! control plane's requests, held as plain data.
use vstd::prelude::*;
use crate::text::{opt_view, owned};

verus! {

/// A JSON number as the wire gives it.
pub enum JsonNumber {
    /// A non-negative integer.
    Unsigned(u64),
    /// A negative integer.
    Signed(i64),
    /// Any other number, in its decimal text.
    Decimal(String),
}

/// A JSON value. An object keeps its members in order, each key at most once.
pub enum JsonValue {
    Null,
    Bool(bool),
    Number(JsonNumber),
    Str(String),
    Array(Vec<JsonValue>),
    Object(Vec<(String, JsonValue)>),
}

/// The first index in `fields`, from `i` on, whose key is `key`; -1 when there is none.
pub open spec fn index_from(fields: Seq<(String, JsonValue)>, key: Seq<char>, i: int) -> int
    decreases fields.len() - i,
{
    if i < 0 || i >= fields.len() {
        -1
    } else if fields[i].0@ == key {
        i
    } else {
        index_from(fields, key, i + 1)
    }
}

/// `index_from` gives -1 or an index from `i` on.
pub proof fn lemma_index_from_bound(fields: Seq<(String, JsonValue)>, key: Seq<char>, i: int)
    ensures
        index_from(fields, key, i) == -1 || (i <= index_from(fields, key, i) < fields.len()),
    decreases fields.len() - i,
{
    if 0 <= i < fields.len() && fields[i].0@ != key {
        lemma_index_from_bound(fields, key, i + 1);
    }
}

/// The member of object `v` named `key`.
pub open spec fn field(v: JsonValue, key: Seq<char>) -> Option<JsonValue> {
    match v {
        JsonValue::Object(fields) => {
            let i = index_from(fields@, key, 0);
            if i >= 0 {
                Some(fields@[i].1)
            } else {
                None
            }
        },
        _ => None,
    }
}

/// The member of object `v` named `key`, when it is a string.
pub open spec fn str_field(v: JsonValue, key: Seq<char>) -> Option<Seq<char>> {
    match field(v, key) {
        Some(JsonValue::Str(s)) => Some(s@),
        _ => None,
    }
}

/// The string at `v.outer.inner`.
pub open spec fn nested_str(v: JsonValue, outer: Seq<char>, inner: Seq<char>) -> Option<Seq<char>> {
    match field(v, outer) {
        Some(o) => str_field(o, inner),
        None => None,
    }
}

/// The first of `a` and `b` that is present.
pub open spec fn or_else<T>(a: Option<T>, b: Option<T>) -> Option<T> {
    if a is Some {
        a
    } else {
        b
    }
}

/// The thread id that a params or result object names: the first of `threadId`,
/// `thread_id` and `thread.id` that is a string.
pub open spec fn container_thread_id(c: JsonValue) -> Option<Seq<char>> {
    or_else(
        str_field(c, "threadId"@),
        or_else(str_field(c, "thread_id"@), nested_str(c, "thread"@, "id"@)),
    )
}

/// The thread id that a message names, searched under `params`, then under `result`.
pub open spec fn thread_id_of(v: JsonValue) -> Option<Seq<char>> {
    let in_params = match field(v, "params"@) {
        Some(c) => container_thread_id(c),
        None => None,
    };
    let in_result = match field(v, "result"@) {
        Some(c) => container_thread_id(c),
        None => None,
    };
    or_else(in_params, in_result)
}

/// The value `v` as an unsigned integer.
pub open spec fn as_u64_spec(v: JsonValue) -> Option<u64> {
    match v {
        JsonValue::Number(JsonNumber::Unsigned(n)) => Some(n),
        _ => None,
    }
}

/// The view of an optional borrowed value.
pub open spec fn opt_ref(o: Option<&JsonValue>) -> Option<JsonValue> {
    match o {
        Some(x) => Some(*x),
        None => None,
    }
}

impl JsonValue {
    /// The member named `key`, when `self` is an object that has one.
    pub fn get(&self, key: &str) -> (r: Option<&JsonValue>)
        ensures
            opt_ref(r) == field(*self, key@),
    {
        match self {
            JsonValue::Object(fields) => {
                let k = owned(key);
                let mut i: usize = 0;
                while i < fields.len()
                    invariant
                        i <= fields.len(),
                        k@ == key@,
                        *self == JsonValue::Object(*fields),
                        index_from(fields@, key@, 0) == index_from(fields@, key@, i as int),
                    decreases fields.len() - i,
                {
                    if fields[i].0 == k {
                        assert(fields@[i as int].0@ == key@);
                        assert(index_from(fields@, key@, i as int) == i);
                        assert(field(*self, key@) == Some(fields@[i as int].1));
                        let found = &fields[i];
                        assert(*found == fields@[i as int]);
                        return Some(&found.1);
                    }
                    i += 1;
                }
                None
            },
            _ => None,
        }
    }

    /// The string held by `self`.
    pub fn as_str(&self) -> (r: Option<&String>)
        ensures
            opt_view(
                match r {
                    Some(s) => Some(*s),
                    None => None,
                },
            ) == match *self {
                JsonValue::Str(s) => Some(s@),
                _ => None,
            },
    {
        match self {
            JsonValue::Str(s) => Some(s),
            _ => None,
        }
    }

    /// The unsigned integer held by `self`.
    pub fn as_u64(&self) -> (r: Option<u64>)
        ensures
            r == as_u64_spec(*self),
    {
        match self {
            JsonValue::Number(JsonNumber::Unsigned(n)) => Some(*n),
            _ => None,
        }
    }

    /// The member named `key` when it is a string.
    pub fn get_str(&self, key: &str) -> (r: Option<String>)
        ensures
            opt_view(r) == str_field(*self, key@),
    {
        match self.get(key) {
            Some(JsonValue::Str(s)) => Some(s.clone()),
            _ => None,
        }
    }

    /// The string at `self.outer.inner`.
    pub fn get_nested_str(&self, outer: &str, inner: &str) -> (r: Option<String>)
        ensures
            opt_view(r) == nested_str(*self, outer@, inner@),
    {
        match self.get(outer) {
            Some(o) => o.get_str(inner),
            None => None,
        }
    }
}

/// The thread id that a params or result object names.
fn container_thread_id_exec(c: &JsonValue) -> (r: Option<String>)
    ensures
        opt_view(r) == container_thread_id(*c),
{
    let camel = c.get_str("threadId");
    if camel.is_some() {
        return camel;
    }
    let snake = c.get_str("thread_id");
    if snake.is_some() {
        return snake;
    }
    c.get_nested_str("thread", "id")
}

/// The thread id that a message names: the first of `threadId`, `thread_id` and
/// `thread.id` that is a string, under `params`, then under `result`.
pub fn extract_thread_id(value: &JsonValue) -> (r: Option<String>)
    ensures
        opt_view(r) == thread_id_of(*value),
{
    let in_params = match value.get("params") {
        Some(c) => container_thread_id_exec(c),
        None => None,
    };
    if in_params.is_some() {
        return in_params;
    }
    match value.get("result") {
        Some(c) => container_thread_id_exec(c),
        None => None,
    }
}

} // verus!
