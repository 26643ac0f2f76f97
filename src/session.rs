//! The state that one agent session keeps to correlate requests with replies and
//! to route each inbound message: to the caller waiting on a reply, to a private
//! background-thread subscriber, or to the broadcast sink for one or more workspaces.
use vstd::prelude::*;
use crate::assoc::{
    str_get, str_insert, str_lookup, str_remove, strs_add, strs_contains, strs_remove, strs_view,
    without,
};
use crate::json::{as_u64_spec, container_thread_id, field, str_field, thread_id_of, JsonValue};
use crate::paths::{normalize_root_path, normalized, resolve_workspace_for_cwd, resolved};
use crate::text::{chars_of, opt_view, str_is};
use crate::thread_list::{entries_view, extract_thread_entries_from_thread_list_result, listed_entries};

verus! {

/// The workspace and method that a request was sent for.
pub struct RequestContext {
    pub workspace_id: String,
    pub method: String,
}

impl RequestContext {
    /// A copy of this context.
    pub fn duplicate(&self) -> (r: RequestContext)
        ensures
            ctx_view(r) == ctx_view(*self),
    {
        RequestContext { workspace_id: self.workspace_id.clone(), method: self.method.clone() }
    }
}

/// A request context as plain values: (workspace id, method).
pub open spec fn ctx_view(c: RequestContext) -> (Seq<char>, Seq<char>) {
    (c.workspace_id@, c.method@)
}

/// The context of request `id` in `s`: that of its last entry.
pub open spec fn pending_lookup(s: Seq<(u64, RequestContext)>, id: u64) -> Option<
    (Seq<char>, Seq<char>),
>
    decreases s.len(),
{
    if s.len() == 0 {
        None
    } else if s.last().0 == id {
        Some(ctx_view(s.last().1))
    } else {
        pending_lookup(s.drop_last(), id)
    }
}

/// Where one inbound message goes.
pub enum Delivery {
    /// To the caller waiting on the reply to request `id`.
    Reply { id: u64 },
    /// To the private subscriber of thread `thread_id`, and nowhere else.
    Private { thread_id: String },
    /// To the broadcast sink, as an event of workspace `workspace_id`.
    Event { workspace_id: String },
}

/// A delivery as plain values.
pub enum Route {
    Reply(u64),
    Private(Seq<char>),
    Event(Seq<char>),
}

/// The view of a delivery.
pub open spec fn route_of(d: Delivery) -> Route {
    match d {
        Delivery::Reply { id } => Route::Reply(id),
        Delivery::Private { thread_id } => Route::Private(thread_id@),
        Delivery::Event { workspace_id } => Route::Event(workspace_id@),
    }
}

/// The views of a list of deliveries.
pub open spec fn routes_of(s: Seq<Delivery>) -> Seq<Route> {
    s.map_values(|d: Delivery| route_of(d))
}

/// The notifications that concern an account rather than a thread.
pub open spec fn is_global_method(m: Seq<char>) -> bool {
    m == "account/updated"@ || m == "account/rateLimits/updated"@ || m
        == "account/login/completed"@
}

/// The request id that a message carries as an unsigned integer.
pub open spec fn msg_id(msg: JsonValue) -> Option<u64> {
    match field(msg, "id"@) {
        Some(v) => as_u64_spec(v),
        None => None,
    }
}

/// The method that a message names as a string.
pub open spec fn msg_method(msg: JsonValue) -> Option<Seq<char>> {
    str_field(msg, "method"@)
}

/// A message with a `result` or an `error` member.
pub open spec fn has_reply_body(msg: JsonValue) -> bool {
    field(msg, "result"@) is Some || field(msg, "error"@) is Some
}

/// A message with an id that is a reply, or that names no method.
pub open spec fn is_reply(msg: JsonValue) -> bool {
    msg_id(msg) is Some && (has_reply_body(msg) || msg_method(msg) is None)
}

/// A message that names a method and is no reply: a notification or a request
/// from the agent.
pub open spec fn is_notification(msg: JsonValue) -> bool {
    msg_method(msg) is Some && !is_reply(msg)
}

/// The workspace of the last listed entry for thread `t` whose working directory
/// some root holds.
pub open spec fn listed_binding(
    entries: Seq<(Seq<char>, Option<Seq<char>>)>,
    roots: Seq<(String, String)>,
    t: Seq<char>,
) -> Option<Seq<char>>
    decreases entries.len(),
{
    if entries.len() == 0 {
        None
    } else {
        let e = entries.last();
        if e.0 == t && e.1 is Some && resolved(roots, e.1->0) is Some {
            resolved(roots, e.1->0)
        } else {
            listed_binding(entries.drop_last(), roots, t)
        }
    }
}

/// The state of one session.
pub struct SessionState {
    /// The workspace that owns the session; messages that route nowhere else go to it.
    pub owner_workspace_id: String,
    /// The id that the next request gets.
    pub next_id: u64,
    /// The requests awaiting a reply, each with its context.
    pub pending: Vec<(u64, RequestContext)>,
    /// Which workspace each known thread belongs to.
    pub thread_workspace: Vec<(String, String)>,
    /// The workspaces attached to the session, in the order they attached.
    pub workspace_ids: Vec<String>,
    /// The normalized root of each attached workspace that has one.
    pub workspace_roots: Vec<(String, String)>,
    /// The threads whose events go to a private subscriber.
    pub background_threads: Vec<String>,
}

impl SessionState {
    /// Every pending request has an id below `next_id`.
    pub open spec fn wf(&self) -> bool {
        forall|i: int| 0 <= i < self.pending@.len() ==> self.pending@[i].0 < self.next_id
    }

    /// The context of pending request `id`.
    pub open spec fn context(&self, id: u64) -> Option<(Seq<char>, Seq<char>)> {
        pending_lookup(self.pending@, id)
    }

    /// The workspace that thread `t` is bound to.
    pub open spec fn binding(&self, t: Seq<char>) -> Option<Seq<char>> {
        str_lookup(self.thread_workspace@, t)
    }

    /// The attached workspace ids.
    pub open spec fn attached(&self) -> Seq<Seq<char>> {
        strs_view(self.workspace_ids@)
    }

    /// Whether thread `t` has a private subscriber.
    pub open spec fn is_background(&self, t: Seq<char>) -> bool {
        strs_view(self.background_threads@).contains(t)
    }

    /// The context of the request that reply `msg` answers.
    pub open spec fn reply_context(&self, msg: JsonValue) -> Option<(Seq<char>, Seq<char>)> {
        if msg_id(msg) is Some && has_reply_body(msg) {
            self.context(msg_id(msg)->0)
        } else {
            None
        }
    }

    /// The binding of thread `t` once `msg` is taken in, before an archival is applied.
    pub open spec fn binding_before_archive(&self, msg: JsonValue, t: Seq<char>) -> Option<
        Seq<char>,
    > {
        let ctx = self.reply_context(msg);
        if ctx is Some && thread_id_of(msg) == Some(t) {
            Some((ctx->0).0)
        } else if ctx is Some && (ctx->0).1 == "thread/list"@ && listed_binding(
            listed_entries(msg),
            self.workspace_roots@,
            t,
        ) is Some {
            listed_binding(listed_entries(msg), self.workspace_roots@, t)
        } else {
            self.binding(t)
        }
    }

    /// The binding of thread `t` once `msg` is taken in.
    pub open spec fn binding_after(&self, msg: JsonValue, t: Seq<char>) -> Option<Seq<char>> {
        if msg_method(msg) == Some("thread/archived"@) && thread_id_of(msg) == Some(t) {
            None
        } else {
            self.binding_before_archive(msg, t)
        }
    }

    /// The workspace that `msg` is routed to: that of its thread, else that of the
    /// request it answers, else the owner.
    pub open spec fn routed(&self, msg: JsonValue) -> Seq<char> {
        let tid = thread_id_of(msg);
        let ctx = self.reply_context(msg);
        if tid is Some && self.binding_before_archive(msg, tid->0) is Some {
            self.binding_before_archive(msg, tid->0)->0
        } else if ctx is Some {
            (ctx->0).0
        } else {
            self.owner_workspace_id@
        }
    }

    /// Where notification `msg` goes.
    pub open spec fn notification_routes(&self, msg: JsonValue) -> Seq<Route> {
        let tid = thread_id_of(msg);
        if tid is Some && self.is_background(tid->0) {
            seq![Route::Private(tid->0)]
        } else if is_global_method(msg_method(msg)->0) && tid is None && self.reply_context(
            msg,
        ) is None && self.attached().len() > 0 {
            self.attached().map_values(|w: Seq<char>| Route::Event(w))
        } else {
            seq![Route::Event(self.routed(msg))]
        }
    }

    /// Where `msg` goes.
    pub open spec fn routes(&self, msg: JsonValue) -> Seq<Route> {
        if is_reply(msg) {
            if self.context(msg_id(msg)->0) is Some {
                seq![Route::Reply(msg_id(msg)->0)]
            } else {
                Seq::empty()
            }
        } else if is_notification(msg) {
            self.notification_routes(msg)
        } else {
            Seq::empty()
        }
    }

    /// A session owned by `owner_workspace_id`, whose root is `owner_path`.
    pub fn new(owner_workspace_id: &str, owner_path: &str) -> (r: SessionState)
        ensures
            r.wf(),
            r.owner_workspace_id@ == owner_workspace_id@,
            r.next_id == 1,
            r.pending@.len() == 0,
            r.thread_workspace@.len() == 0,
            r.attached() == seq![owner_workspace_id@],
            r.workspace_roots@.len() == 1,
            r.workspace_roots@[0].0@ == owner_workspace_id@,
            r.workspace_roots@[0].1@ == normalized(owner_path@),
            r.background_threads@.len() == 0,
    {
        let owner = crate::text::owned(owner_workspace_id);
        let mut ids: Vec<String> = Vec::new();
        ids.push(owner.clone());
        let mut roots: Vec<(String, String)> = Vec::new();
        roots.push((owner.clone(), normalize_root_path(owner_path)));
        let r = SessionState {
            owner_workspace_id: owner,
            next_id: 1,
            pending: Vec::new(),
            thread_workspace: Vec::new(),
            workspace_ids: ids,
            workspace_roots: roots,
            background_threads: Vec::new(),
        };
        assert(r.attached() =~= seq![owner_workspace_id@]);
        r
    }

    /// Attaches `workspace_id`, and records its normalized root when `workspace_path`
    /// gives a non-empty one.
    pub fn register_workspace_with_path(&mut self, workspace_id: &str, workspace_path: Option<&str>)
        requires
            old(self).wf(),
        ensures
            final(self).wf(),
            final(self).attached() == if old(self).attached().contains(workspace_id@) {
                old(self).attached()
            } else {
                old(self).attached().push(workspace_id@)
            },
            forall|w: Seq<char>|
                #![trigger str_lookup(final(self).workspace_roots@, w)]
                str_lookup(final(self).workspace_roots@, w) == match workspace_path {
                    Some(p) => if w == workspace_id@ && normalized(p@).len() > 0 {
                        Some(normalized(p@))
                    } else {
                        str_lookup(old(self).workspace_roots@, w)
                    },
                    None => str_lookup(old(self).workspace_roots@, w),
                },
            final(self).owner_workspace_id == old(self).owner_workspace_id,
            final(self).next_id == old(self).next_id,
            final(self).pending == old(self).pending,
            final(self).thread_workspace == old(self).thread_workspace,
            final(self).background_threads == old(self).background_threads,
    {
        let id = crate::text::owned(workspace_id);
        strs_add(&mut self.workspace_ids, id.clone());
        match workspace_path {
            Some(path) => {
                let normalized_path = normalize_root_path(path);
                if chars_of(&normalized_path).len() > 0 {
                    str_insert(&mut self.workspace_roots, id, normalized_path);
                }
            },
            None => {},
        }
    }

    /// Attaches `workspace_id`.
    pub fn register_workspace(&mut self, workspace_id: &str)
        requires
            old(self).wf(),
        ensures
            final(self).wf(),
            final(self).attached() == if old(self).attached().contains(workspace_id@) {
                old(self).attached()
            } else {
                old(self).attached().push(workspace_id@)
            },
            final(self).workspace_roots == old(self).workspace_roots,
            final(self).owner_workspace_id == old(self).owner_workspace_id,
            final(self).next_id == old(self).next_id,
            final(self).pending == old(self).pending,
            final(self).thread_workspace == old(self).thread_workspace,
            final(self).background_threads == old(self).background_threads,
    {
        let id = crate::text::owned(workspace_id);
        strs_add(&mut self.workspace_ids, id);
    }

    /// Detaches `workspace_id` and forgets its root.
    pub fn unregister_workspace(&mut self, workspace_id: &str)
        requires
            old(self).wf(),
        ensures
            final(self).wf(),
            final(self).attached() == without(old(self).attached(), workspace_id@),
            forall|w: Seq<char>|
                #![trigger str_lookup(final(self).workspace_roots@, w)]
                str_lookup(final(self).workspace_roots@, w) == if w == workspace_id@ {
                    None
                } else {
                    str_lookup(old(self).workspace_roots@, w)
                },
            final(self).owner_workspace_id == old(self).owner_workspace_id,
            final(self).next_id == old(self).next_id,
            final(self).pending == old(self).pending,
            final(self).thread_workspace == old(self).thread_workspace,
            final(self).background_threads == old(self).background_threads,
    {
        let id = crate::text::owned(workspace_id);
        strs_remove(&mut self.workspace_ids, &id);
        str_remove(&mut self.workspace_roots, &id);
    }

    /// The attached workspace ids, in the order they attached.
    pub fn workspace_ids_snapshot(&self) -> (r: Vec<String>)
        ensures
            strs_view(r@) == self.attached(),
    {
        let mut out: Vec<String> = Vec::new();
        let mut i: usize = 0;
        while i < self.workspace_ids.len()
            invariant
                i <= self.workspace_ids.len(),
                out@.len() == i,
                forall|j: int| 0 <= j < i ==> out@[j]@ == self.workspace_ids@[j]@,
            decreases self.workspace_ids.len() - i,
        {
            out.push(self.workspace_ids[i].clone());
            i += 1;
        }
        assert(strs_view(out@) =~= self.attached());
        out
    }

    /// Gives thread `thread_id` a private subscriber: from now on its events are
    /// delivered there and not broadcast.
    pub fn register_background_thread(&mut self, thread_id: &str)
        requires
            old(self).wf(),
        ensures
            final(self).wf(),
            forall|t: Seq<char>|
                #![trigger final(self).is_background(t)]
                final(self).is_background(t) == (t == thread_id@ || old(self).is_background(t)),
            final(self).owner_workspace_id == old(self).owner_workspace_id,
            final(self).next_id == old(self).next_id,
            final(self).pending == old(self).pending,
            final(self).thread_workspace == old(self).thread_workspace,
            final(self).workspace_ids == old(self).workspace_ids,
            final(self).workspace_roots == old(self).workspace_roots,
    {
        let id = crate::text::owned(thread_id);
        strs_add(&mut self.background_threads, id);
        proof {
            assert forall|t: Seq<char>|
                #![trigger self.is_background(t)]
                self.is_background(t) == (t == thread_id@ || old(self).is_background(t)) by {
                lemma_push_contains(strs_view(old(self).background_threads@), thread_id@, t);
            }
        }
    }

    /// Removes the private subscriber of thread `thread_id`.
    pub fn unregister_background_thread(&mut self, thread_id: &str)
        requires
            old(self).wf(),
        ensures
            final(self).wf(),
            forall|t: Seq<char>|
                #![trigger final(self).is_background(t)]
                final(self).is_background(t) == (t != thread_id@ && old(self).is_background(t)),
            final(self).owner_workspace_id == old(self).owner_workspace_id,
            final(self).next_id == old(self).next_id,
            final(self).pending == old(self).pending,
            final(self).thread_workspace == old(self).thread_workspace,
            final(self).workspace_ids == old(self).workspace_ids,
            final(self).workspace_roots == old(self).workspace_roots,
    {
        let id = crate::text::owned(thread_id);
        strs_remove(&mut self.background_threads, &id);
        proof {
            assert forall|t: Seq<char>|
                #![trigger self.is_background(t)]
                self.is_background(t) == (t != thread_id@ && old(self).is_background(t)) by {
                lemma_without_contains(strs_view(old(self).background_threads@), thread_id@, t);
            }
        }
    }
}


/// Whether `method` is one of the account-level notifications that every attached
/// workspace receives.
pub fn is_global_workspace_notification(method: &str) -> (r: bool)
    ensures
        r == is_global_method(method@),
{
    str_is(method, "account/updated") || str_is(method, "account/rateLimits/updated") || str_is(
        method,
        "account/login/completed",
    )
}

/// Whether a notification fans out to every attached workspace: it is global, names
/// no thread, and answers no request.
pub fn should_broadcast_global_workspace_notification(
    method_name: Option<&str>,
    thread_id: Option<&String>,
    request_workspace: Option<&str>,
) -> (r: bool)
    ensures
        r == (method_name is Some && is_global_method(method_name->0@) && thread_id is None
            && request_workspace is None),
{
    match method_name {
        Some(m) => is_global_workspace_notification(m) && thread_id.is_none()
            && request_workspace.is_none(),
        None => false,
    }
}

/// Binds each listed thread whose working directory some root holds to that root's
/// workspace; a later entry overrides an earlier one.
fn bind_listed_threads(
    threads: &mut Vec<(String, String)>,
    entries: &Vec<crate::thread_list::ThreadListEntry>,
    roots: &Vec<(String, String)>,
)
    ensures
        forall|t: Seq<char>|
            #![trigger str_lookup(final(threads)@, t)]
            str_lookup(final(threads)@, t) == if listed_binding(entries_view(entries@), roots@, t) is Some {
                listed_binding(entries_view(entries@), roots@, t)
            } else {
                str_lookup(old(threads)@, t)
            },
{
    let mut i: usize = 0;
    while i < entries.len()
        invariant
            i <= entries.len(),
            forall|t: Seq<char>|
                #![trigger str_lookup(threads@, t)]
                str_lookup(threads@, t) == if listed_binding(
                    entries_view(entries@.take(i as int)),
                    roots@,
                    t,
                ) is Some {
                    listed_binding(entries_view(entries@.take(i as int)), roots@, t)
                } else {
                    str_lookup(old(threads)@, t)
                },
        decreases entries.len() - i,
    {
        let ghost prev = entries_view(entries@.take(i as int));
        let ghost next = entries_view(entries@.take(i + 1));
        assert(next.drop_last() =~= prev);
        assert(next.last() == crate::thread_list::entry_view(entries@[i as int]));
        let entry = &entries[i];
        match &entry.cwd {
            Some(cwd) => {
                match resolve_workspace_for_cwd(cwd, roots) {
                    Some(w) => {
                        str_insert(threads, entry.thread_id.clone(), w);
                    },
                    None => {},
                }
            },
            None => {},
        }
        i += 1;
    }
    assert(entries@.take(entries.len() as int) == entries@);
}

impl SessionState {
    /// Removes request `id` from the pending requests and hands back its context.
    fn take_pending(&mut self, id: u64) -> (r: Option<RequestContext>)
        requires
            old(self).wf(),
        ensures
            final(self).wf(),
            match r {
                Some(c) => old(self).context(id) == Some(ctx_view(c)),
                None => old(self).context(id) is None,
            },
            forall|x: u64|
                #![trigger final(self).context(x)]
                final(self).context(x) == if x == id {
                    None
                } else {
                    old(self).context(x)
                },
            final(self).owner_workspace_id == old(self).owner_workspace_id,
            final(self).next_id == old(self).next_id,
            final(self).thread_workspace == old(self).thread_workspace,
            final(self).workspace_ids == old(self).workspace_ids,
            final(self).workspace_roots == old(self).workspace_roots,
            final(self).background_threads == old(self).background_threads,
    {
        let mut kept: Vec<(u64, RequestContext)> = Vec::new();
        let mut found: Option<RequestContext> = None;
        let mut i: usize = 0;
        while i < self.pending.len()
            invariant
                i <= self.pending.len(),
                forall|j: int| 0 <= j < kept@.len() ==> kept@[j].0 < self.next_id,
                forall|j: int| 0 <= j < self.pending@.len() ==> self.pending@[j].0 < self.next_id,
                match found {
                    Some(c) => pending_lookup(self.pending@.take(i as int), id) == Some(ctx_view(c)),
                    None => pending_lookup(self.pending@.take(i as int), id) is None,
                },
                forall|x: u64|
                    #![trigger pending_lookup(kept@, x)]
                    pending_lookup(kept@, x) == if x == id {
                        None
                    } else {
                        pending_lookup(self.pending@.take(i as int), x)
                    },
            decreases self.pending.len() - i,
        {
            let ghost before = kept@;
            let ghost next = self.pending@.take(i + 1);
            assert(next.drop_last() == self.pending@.take(i as int));
            assert(next.last() == self.pending@[i as int]);
            if self.pending[i].0 == id {
                found = Some(self.pending[i].1.duplicate());
            } else {
                let entry = (self.pending[i].0, self.pending[i].1.duplicate());
                kept.push(entry);
                assert(kept@.drop_last() == before);
            }
            assert forall|x: u64|
                #![trigger pending_lookup(kept@, x)]
                pending_lookup(kept@, x) == if x == id {
                    None
                } else {
                    pending_lookup(next, x)
                } by {
                if kept@.len() > before.len() {
                    assert(pending_lookup(kept@, x) == if kept@.last().0 == x {
                        Some(ctx_view(kept@.last().1))
                    } else {
                        pending_lookup(before, x)
                    });
                }
            }
            i += 1;
        }
        assert(self.pending@.take(self.pending.len() as int) == self.pending@);
        self.pending = kept;
        found
    }

    /// Opens request `method` for `workspace_id`: allocates the next id, attaches the
    /// workspace, records the context, and binds the thread that `params` names to
    /// the workspace. The caller then writes the request with that id.
    pub fn begin_request(&mut self, workspace_id: &str, method: &str, params: &JsonValue) -> (id:
        u64)
        requires
            old(self).wf(),
            old(self).next_id < u64::MAX,
        ensures
            final(self).wf(),
            id == old(self).next_id,
            final(self).next_id == old(self).next_id + 1,
            forall|x: u64|
                #![trigger final(self).context(x)]
                final(self).context(x) == if x == id {
                    Some((workspace_id@, method@))
                } else {
                    old(self).context(x)
                },
            forall|t: Seq<char>|
                #![trigger final(self).binding(t)]
                final(self).binding(t) == if container_thread_id(*params) == Some(t) {
                    Some(workspace_id@)
                } else {
                    old(self).binding(t)
                },
            final(self).attached() == if old(self).attached().contains(workspace_id@) {
                old(self).attached()
            } else {
                old(self).attached().push(workspace_id@)
            },
            final(self).owner_workspace_id == old(self).owner_workspace_id,
            final(self).workspace_roots == old(self).workspace_roots,
            final(self).background_threads == old(self).background_threads,
    {
        let id = self.next_id;
        self.next_id = id + 1;
        self.register_workspace(workspace_id);
        let context = RequestContext {
            workspace_id: crate::text::owned(workspace_id),
            method: crate::text::owned(method),
        };
        let ghost before = self.pending@;
        self.pending.push((id, context));
        assert(self.pending@.drop_last() == before);
        assert forall|x: u64|
            #![trigger self.context(x)]
            self.context(x) == if x == id {
                Some((workspace_id@, method@))
            } else {
                old(self).context(x)
            } by {
            assert(pending_lookup(self.pending@, x) == if self.pending@.last().0 == x {
                Some(ctx_view(self.pending@.last().1))
            } else {
                pending_lookup(before, x)
            });
        }
        let thread = match params.get_str("threadId") {
            Some(t) => Some(t),
            None => match params.get_str("thread_id") {
                Some(t) => Some(t),
                None => params.get_nested_str("thread", "id"),
            },
        };
        assert(opt_view(thread) == container_thread_id(*params));
        match thread {
            Some(t) => {
                str_insert(&mut self.thread_workspace, t, crate::text::owned(workspace_id));
            },
            None => {},
        }
        id
    }

    /// Drops request `id` without a reply: it timed out, or writing it failed.
    pub fn cancel_request(&mut self, id: u64)
        requires
            old(self).wf(),
        ensures
            final(self).wf(),
            forall|x: u64|
                #![trigger final(self).context(x)]
                final(self).context(x) == if x == id {
                    None
                } else {
                    old(self).context(x)
                },
            final(self).owner_workspace_id == old(self).owner_workspace_id,
            final(self).next_id == old(self).next_id,
            final(self).thread_workspace == old(self).thread_workspace,
            final(self).workspace_ids == old(self).workspace_ids,
            final(self).workspace_roots == old(self).workspace_roots,
            final(self).background_threads == old(self).background_threads,
    {
        let _ = self.take_pending(id);
    }

    /// Drops every pending request, as when the agent's output ends; hands back their
    /// ids so that their callers learn the request was canceled.
    pub fn close(&mut self) -> (r: Vec<u64>)
        requires
            old(self).wf(),
        ensures
            final(self).wf(),
            final(self).pending@.len() == 0,
            r@ == old(self).pending@.map_values(|p: (u64, RequestContext)| p.0),
            final(self).owner_workspace_id == old(self).owner_workspace_id,
            final(self).next_id == old(self).next_id,
            final(self).thread_workspace == old(self).thread_workspace,
            final(self).workspace_ids == old(self).workspace_ids,
            final(self).workspace_roots == old(self).workspace_roots,
            final(self).background_threads == old(self).background_threads,
    {
        let mut ids: Vec<u64> = Vec::new();
        let mut i: usize = 0;
        while i < self.pending.len()
            invariant
                i <= self.pending.len(),
                ids@ == self.pending@.take(i as int).map_values(|p: (u64, RequestContext)| p.0),
            decreases self.pending.len() - i,
        {
            ids.push(self.pending[i].0);
            assert(ids@ =~= self.pending@.take(i + 1).map_values(|p: (u64, RequestContext)| p.0));
            i += 1;
        }
        assert(self.pending@.take(self.pending.len() as int) == self.pending@);
        self.pending = Vec::new();
        ids
    }

    /// Takes in one message from the agent: settles the request it answers, learns
    /// thread bindings from it, and says where it goes (see `routes`).
    pub fn dispatch(&mut self, message: &JsonValue) -> (r: Vec<Delivery>)
        requires
            old(self).wf(),
        ensures
            final(self).wf(),
            routes_of(r@) == old(self).routes(*message),
            forall|x: u64|
                #![trigger final(self).context(x)]
                final(self).context(x) == if is_reply(*message) && x == msg_id(*message)->0 {
                    None
                } else {
                    old(self).context(x)
                },
            forall|t: Seq<char>|
                #![trigger final(self).binding(t)]
                final(self).binding(t) == old(self).binding_after(*message, t),
            final(self).owner_workspace_id == old(self).owner_workspace_id,
            final(self).next_id == old(self).next_id,
            final(self).workspace_ids == old(self).workspace_ids,
            final(self).workspace_roots == old(self).workspace_roots,
            final(self).background_threads == old(self).background_threads,
    {
        let ghost s0 = *self;
        let maybe_id = match message.get("id") {
            Some(v) => v.as_u64(),
            None => None,
        };
        let method = message.get_str("method");
        let has_body = message.get("result").is_some() || message.get("error").is_some();
        let thread_id = crate::json::extract_thread_id(message);
        let mut ctx: Option<RequestContext> = None;
        if has_body {
            match maybe_id {
                Some(id) => {
                    ctx = self.take_pending(id);
                },
                None => {},
            }
        }
        assert(match ctx {
            Some(c) => s0.reply_context(*message) == Some(ctx_view(c)),
            None => s0.reply_context(*message) is None,
        });
        match &ctx {
            Some(c) => {
                if str_is(&c.method, "thread/list") {
                    let entries = extract_thread_entries_from_thread_list_result(message);
                    bind_listed_threads(&mut self.thread_workspace, &entries, &self.workspace_roots);
                }
                match &thread_id {
                    Some(t) => {
                        str_insert(&mut self.thread_workspace, t.clone(), c.workspace_id.clone());
                    },
                    None => {},
                }
            },
            None => {},
        }
        assert forall|t: Seq<char>|
            #![trigger self.binding(t)]
            self.binding(t) == s0.binding_before_archive(*message, t) by {}
        let fallback = match &ctx {
            Some(c) => c.workspace_id.clone(),
            None => self.owner_workspace_id.clone(),
        };
        let routed = match &thread_id {
            Some(t) => match str_get(&self.thread_workspace, t) {
                Some(w) => w,
                None => fallback,
            },
            None => fallback,
        };
        assert(routed@ == s0.routed(*message));
        let archived = match &method {
            Some(m) => str_is(m, "thread/archived"),
            None => false,
        };
        if archived {
            match &thread_id {
                Some(t) => {
                    str_remove(&mut self.thread_workspace, t);
                },
                None => {},
            }
        }
        let mut out: Vec<Delivery> = Vec::new();
        match maybe_id {
            Some(id) => {
                if has_body || method.is_none() {
                    let settled = if has_body {
                        ctx.is_some()
                    } else {
                        self.take_pending(id).is_some()
                    };
                    if settled {
                        out.push(Delivery::Reply { id });
                    }
                    assert(routes_of(out@) =~= s0.routes(*message));
                    return out;
                }
            },
            None => {},
        }
        if method.is_none() {
            assert(routes_of(out@) =~= s0.routes(*message));
            return out;
        }
        let private = match &thread_id {
            Some(t) => strs_contains(&self.background_threads, t),
            None => false,
        };
        if private {
            match thread_id {
                Some(t) => {
                    out.push(Delivery::Private { thread_id: t });
                },
                None => {},
            }
        } else {
            let global = match &method {
                Some(m) => is_global_workspace_notification(m),
                None => false,
            };
            if global && thread_id.is_none() && ctx.is_none() && self.workspace_ids.len() > 0 {
                let mut i: usize = 0;
                while i < self.workspace_ids.len()
                    invariant
                        i <= self.workspace_ids.len(),
                        out@.len() == i,
                        forall|j: int|
                            0 <= j < i ==> route_of(out@[j]) == Route::Event(
                                self.workspace_ids@[j]@,
                            ),
                    decreases self.workspace_ids.len() - i,
                {
                    out.push(Delivery::Event { workspace_id: self.workspace_ids[i].clone() });
                    i += 1;
                }
                assert(routes_of(out@) =~= strs_view(self.workspace_ids@).map_values(
                    |w: Seq<char>| Route::Event(w),
                ));
            } else {
                out.push(Delivery::Event { workspace_id: routed });
            }
        }
        assert(routes_of(out@) =~= s0.routes(*message));
        out
    }
}

/// What a sequence holds once `k` is pushed.
pub proof fn lemma_push_contains(s: Seq<Seq<char>>, k: Seq<char>, x: Seq<char>)
    ensures
        s.push(k).contains(x) == (x == k || s.contains(x)),
{
    if x == k {
        assert(s.push(k)[s.len() as int] == x);
    }
    if s.contains(x) {
        let i = choose|i: int| 0 <= i < s.len() && s[i] == x;
        assert(s.push(k)[i] == x);
    }
    if s.push(k).contains(x) && x != k {
        let i = choose|i: int| 0 <= i < s.push(k).len() && s.push(k)[i] == x;
        assert(s[i] == x);
    }
}

/// What `without` keeps.
pub proof fn lemma_without_contains(s: Seq<Seq<char>>, k: Seq<char>, x: Seq<char>)
    ensures
        without(s, k).contains(x) == (x != k && s.contains(x)),
    decreases s.len(),
{
    if s.len() > 0 {
        lemma_without_contains(s.drop_last(), k, x);
        assert(s == s.drop_last().push(s.last()));
        if s.contains(x) && x != s.last() {
            let i = choose|i: int| 0 <= i < s.len() && s[i] == x;
            assert(s.drop_last()[i] == x);
        }
        if without(s.drop_last(), k).contains(x) {
            let i = choose|i: int| 0 <= i < without(s.drop_last(), k).len() && without(s.drop_last(), k)[i] == x;
            if s.last() != k {
                assert(without(s, k)[i] == x);
            }
        }
        if s.last() != k && x == s.last() {
            assert(without(s, k).last() == x);
        }
        if without(s, k).contains(x) && s.last() != k && x != s.last() {
            let i = choose|i: int| 0 <= i < without(s, k).len() && without(s, k)[i] == x;
            assert(without(s.drop_last(), k)[i] == x);
        }
    }
}

} // verus!

verus! {

/// A background thread's notifications go to its private subscriber alone: the
/// broadcast sink receives none of them.
pub proof fn lemma_background_suppresses_broadcast(s: SessionState, msg: JsonValue, t: Seq<char>)
    requires
        is_notification(msg),
        thread_id_of(msg) == Some(t),
        s.is_background(t),
    ensures
        s.routes(msg) == seq![Route::Private(t)],
        forall|i: int| 0 <= i < s.routes(msg).len() ==> !(s.routes(msg)[i] is Event),
{
}

/// A global notification that names no thread reaches every attached workspace once,
/// in the order they attached, and nothing else.
pub proof fn lemma_global_fan_out(s: SessionState, msg: JsonValue)
    requires
        is_notification(msg),
        is_global_method(msg_method(msg)->0),
        thread_id_of(msg) is None,
        s.attached().len() > 0,
    ensures
        s.routes(msg).len() == s.attached().len(),
        forall|i: int|
            0 <= i < s.attached().len() ==> s.routes(msg)[i] == Route::Event(s.attached()[i]),
{
    assert(s.reply_context(msg) is None);
}

/// Once the reply to a request from workspace `w` names thread `t`, a later
/// notification about `t` goes to `w`, unless `t` has a private subscriber or the
/// reply archived it. `s2` is the state that `dispatch` leaves after the reply.
pub proof fn lemma_thread_follows_its_request(
    s1: SessionState,
    reply: JsonValue,
    s2: SessionState,
    note: JsonValue,
    w: Seq<char>,
    m: Seq<char>,
    t: Seq<char>,
)
    requires
        s1.reply_context(reply) == Some((w, m)),
        thread_id_of(reply) == Some(t),
        msg_method(reply) != Some("thread/archived"@),
        forall|x: Seq<char>| #[trigger] s2.binding(x) == s1.binding_after(reply, x),
        is_notification(note),
        thread_id_of(note) == Some(t),
        !s2.is_background(t),
    ensures
        s2.binding(t) == Some(w),
        s2.routes(note) == seq![Route::Event(w)],
{
    assert(s2.binding(t) == s1.binding_after(reply, t));
    assert(s2.reply_context(note) is None);
    assert(s2.binding_before_archive(note, t) == s2.binding(t));
}

/// A request is settled at most once: after the reply to `id` is taken in, a second
/// reply with the same id reaches no caller. `s2` is the state that `dispatch`
/// leaves after the first reply.
pub proof fn lemma_reply_settles_once(
    s1: SessionState,
    first: JsonValue,
    s2: SessionState,
    second: JsonValue,
)
    requires
        is_reply(first),
        forall|x: u64|
            #[trigger] s2.context(x) == if is_reply(first) && x == msg_id(first)->0 {
                None
            } else {
                s1.context(x)
            },
        is_reply(second),
        msg_id(second) == msg_id(first),
    ensures
        s2.routes(second).len() == 0,
{
    assert(s2.context(msg_id(second)->0) is None);
}

/// A notification changes no thread binding, except that `thread/archived` drops
/// the binding of the thread it names. With the law above, every notification about
/// a thread goes to the workspace of the request that bound it, until the thread is
/// archived or another reply binds it again.
pub proof fn lemma_notification_keeps_bindings(s: SessionState, msg: JsonValue, t: Seq<char>)
    requires
        is_notification(msg),
    ensures
        s.binding_after(msg, t) == if msg_method(msg) == Some("thread/archived"@) && thread_id_of(
            msg,
        ) == Some(t) {
            None
        } else {
            s.binding(t)
        },
{
    assert(s.reply_context(msg) is None);
}

} // verus!
