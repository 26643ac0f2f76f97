//! The walk over a `thread/list` reply that pairs each listed thread with its
//! working directory.
use vstd::prelude::*;
use crate::json::{index_from, lemma_index_from_bound, nested_str, or_else, str_field, JsonValue};
use crate::text::opt_view;

verus! {

/// A thread named in a `thread/list` reply, with its working directory when given.
pub struct ThreadListEntry {
    pub thread_id: String,
    pub cwd: Option<String>,
}

/// A listed thread as plain values.
pub open spec fn entry_view(e: ThreadListEntry) -> (Seq<char>, Option<Seq<char>>) {
    (e.thread_id@, opt_view(e.cwd))
}

/// A list of entries as plain values.
pub open spec fn entries_view(s: Seq<ThreadListEntry>) -> Seq<(Seq<char>, Option<Seq<char>>)> {
    s.map_values(|e: ThreadListEntry| entry_view(e))
}

/// The thread id of a listed object: the first of `threadId`, `thread_id`, `id` and
/// `thread.id` that is a string.
pub open spec fn listed_id(v: JsonValue) -> Option<Seq<char>> {
    or_else(
        str_field(v, "threadId"@),
        or_else(
            str_field(v, "thread_id"@),
            or_else(str_field(v, "id"@), nested_str(v, "thread"@, "id"@)),
        ),
    )
}

/// The working directory of a listed object: `cwd`, else `thread.cwd`.
pub open spec fn listed_cwd(v: JsonValue) -> Option<Seq<char>> {
    or_else(str_field(v, "cwd"@), nested_str(v, "thread"@, "cwd"@))
}

/// The entry that object `v` itself contributes.
pub open spec fn own_entry(v: JsonValue) -> Seq<(Seq<char>, Option<Seq<char>>)> {
    match listed_id(v) {
        Some(id) => seq![(id, listed_cwd(v))],
        None => Seq::empty(),
    }
}

/// The number of elements of an array; zero for any other value.
pub open spec fn arity(v: JsonValue) -> nat {
    match v {
        JsonValue::Array(items) => items.len() as nat,
        _ => 0,
    }
}

/// The entries found in `v`: an array contributes those of its elements; an
/// object its own entry, then those of the arrays under `threads`, `items`,
/// `results` and `data`.
pub open spec fn walk(v: JsonValue) -> Seq<(Seq<char>, Option<Seq<char>>)>
    decreases v, arity(v) + 1,
{
    match v {
        JsonValue::Array(items) => walk_items(v, items.len() as nat),
        JsonValue::Object(_) => own_entry(v) + walk_member(v, "threads"@) + walk_member(v, "items"@)
            + walk_member(v, "results"@) + walk_member(v, "data"@),
        _ => Seq::empty(),
    }
}

/// The entries found in the array under `key` of object `v`.
pub open spec fn walk_member(v: JsonValue, key: Seq<char>) -> Seq<(Seq<char>, Option<Seq<char>>)>
    decreases v, 0nat,
{
    match v {
        JsonValue::Object(fields) => {
            let i = index_from(fields@, key, 0);
            if 0 <= i < fields.len() {
                match fields@[i].1 {
                    JsonValue::Array(items) => walk_items(fields@[i].1, items.len() as nat),
                    _ => Seq::empty(),
                }
            } else {
                Seq::empty()
            }
        },
        _ => Seq::empty(),
    }
}

/// The entries found in the first `n` elements of array `a`.
pub open spec fn walk_items(a: JsonValue, n: nat) -> Seq<(Seq<char>, Option<Seq<char>>)>
    decreases a, n,
{
    match a {
        JsonValue::Array(items) => if n == 0 || n > items.len() {
            Seq::empty()
        } else {
            walk_items(a, (n - 1) as nat) + walk(items@[n - 1])
        },
        _ => Seq::empty(),
    }
}

/// The entries that a `thread/list` reply lists under its `result`.
pub open spec fn listed_entries(reply: JsonValue) -> Seq<(Seq<char>, Option<Seq<char>>)> {
    match reply {
        JsonValue::Object(fields) => {
            let i = index_from(fields@, "result"@, 0);
            if 0 <= i < fields.len() {
                walk(fields@[i].1)
            } else {
                Seq::empty()
            }
        },
        _ => Seq::empty(),
    }
}

/// Appends `e` to `out`.
fn push_entry(out: &mut Vec<ThreadListEntry>, e: ThreadListEntry)
    ensures
        entries_view(final(out)@) == entries_view(old(out)@).push(entry_view(e)),
{
    out.push(e);
    assert(entries_view(final(out)@) =~= entries_view(old(out)@).push(entry_view(e)));
}

/// Appends the entries of the array under `key` of `v`.
fn collect_member(v: &JsonValue, key: &str, out: &mut Vec<ThreadListEntry>)
    ensures
        entries_view(final(out)@) == entries_view(old(out)@) + walk_member(*v, key@),
    decreases *v, 0nat,
{
    match v {
        JsonValue::Object(fields) => {
            proof {
                lemma_index_from_bound(fields@, key@, 0);
            }
            match v.get(key) {
                Some(member) => {
                    assert(*member == fields@[index_from(fields@, key@, 0)].1);
                    match member {
                        JsonValue::Array(items) => collect_items(member, items, out),
                        _ => {
                            assert(entries_view(old(out)@) + walk_member(*v, key@) =~= entries_view(
                                old(out)@,
                            ));
                        },
                    }
                },
                None => {
                    assert(entries_view(old(out)@) + walk_member(*v, key@) =~= entries_view(
                        old(out)@,
                    ));
                },
            }
        },
        _ => {
            assert(entries_view(old(out)@) + walk_member(*v, key@) =~= entries_view(old(out)@));
        },
    }
}

/// Appends the entries found in the elements of array `a`, whose elements are `items`.
fn collect_items(a: &JsonValue, items: &Vec<JsonValue>, out: &mut Vec<ThreadListEntry>)
    requires
        *a == JsonValue::Array(*items),
    ensures
        entries_view(final(out)@) == entries_view(old(out)@) + walk_items(*a, items.len() as nat),
    decreases *a, items.len(),
{
    let mut i: usize = 0;
    assert(entries_view(out@) =~= entries_view(old(out)@) + walk_items(*a, 0));
    while i < items.len()
        invariant
            i <= items.len(),
            *a == JsonValue::Array(*items),
            entries_view(out@) == entries_view(old(out)@) + walk_items(*a, i as nat),
        decreases items.len() - i,
    {
        collect_entries(&items[i], out);
        assert(walk_items(*a, (i + 1) as nat) == walk_items(*a, i as nat) + walk(items@[i as int]));
        assert(entries_view(out@) =~= entries_view(old(out)@) + walk_items(*a, (i + 1) as nat));
        i += 1;
    }
}

/// Appends the entries found in `input` (see `walk`).
fn collect_entries(input: &JsonValue, out: &mut Vec<ThreadListEntry>)
    ensures
        entries_view(final(out)@) == entries_view(old(out)@) + walk(*input),
    decreases *input, arity(*input) + 1,
{
    match input {
        JsonValue::Array(items) => {
            collect_items(input, items, out);
        },
        JsonValue::Object(_) => {
            let camel = input.get_str("threadId");
            let id = if camel.is_some() {
                camel
            } else {
                let snake = input.get_str("thread_id");
                if snake.is_some() {
                    snake
                } else {
                    let plain = input.get_str("id");
                    if plain.is_some() {
                        plain
                    } else {
                        input.get_nested_str("thread", "id")
                    }
                }
            };
            let direct_cwd = input.get_str("cwd");
            let cwd = if direct_cwd.is_some() {
                direct_cwd
            } else {
                input.get_nested_str("thread", "cwd")
            };
            let ghost start = entries_view(out@);
            match id {
                Some(thread_id) => {
                    push_entry(out, ThreadListEntry { thread_id, cwd });
                },
                None => {},
            }
            assert(entries_view(out@) == start + own_entry(*input));
            collect_member(input, "threads", out);
            collect_member(input, "items", out);
            collect_member(input, "results", out);
            collect_member(input, "data", out);
            assert(entries_view(out@) =~= entries_view(old(out)@) + walk(*input));
        },
        _ => {
            assert(entries_view(old(out)@) + walk(*input) =~= entries_view(old(out)@));
        },
    }
}

/// The threads that a `thread/list` reply lists under its `result`, in the order of
/// a depth-first walk (see `walk`).
pub fn extract_thread_entries_from_thread_list_result(value: &JsonValue) -> (r: Vec<
    ThreadListEntry,
>)
    ensures
        entries_view(r@) == listed_entries(*value),
{
    let mut out: Vec<ThreadListEntry> = Vec::new();
    assert(entries_view(out@) =~= Seq::empty());
    match value {
        JsonValue::Object(fields) => {
            proof {
                lemma_index_from_bound(fields@, "result"@, 0);
            }
            match value.get("result") {
                Some(result) => {
                    collect_entries(result, &mut out);
                    assert(entries_view(out@) =~= listed_entries(*value));
                },
                None => {},
            }
        },
        _ => {},
    }
    out
}

} // verus!
