//! The workspace records and the rules that keep them consistent: a worktree hangs
//! off a live main workspace, ids and paths are unique, and renames, removals and
//! settings changes keep those rules.
use vstd::prelude::*;
use crate::text::{opt_view, owned, str_is};
use crate::worktree::normalize_setup_script;

verus! {

/// Whether a workspace is a repository of its own or a worktree of one.
#[derive(PartialEq, Eq, Structural, Clone, Copy, Debug)]
pub enum WorkspaceKind {
    Main,
    Worktree,
}

/// The branch that a worktree checks out.
pub struct WorktreeInfo {
    pub branch: String,
}

/// The settings of one workspace.
pub struct WorkspaceSettings {
    pub sort_order: Option<u32>,
    pub codex_home: Option<String>,
    pub codex_args: Option<String>,
    pub worktree_setup_script: Option<String>,
}

/// One workspace record.
pub struct WorkspaceEntry {
    pub id: String,
    pub name: String,
    pub path: String,
    pub codex_bin: Option<String>,
    pub kind: WorkspaceKind,
    pub parent_id: Option<String>,
    pub worktree: Option<WorktreeInfo>,
    pub settings: WorkspaceSettings,
}

/// A copy of an optional string.
pub fn copy_opt(o: &Option<String>) -> (r: Option<String>)
    ensures
        r == *o,
{
    match o {
        Some(s) => Some(s.clone()),
        None => None,
    }
}

impl WorkspaceSettings {
    /// Settings with nothing set.
    pub fn empty() -> (r: WorkspaceSettings)
        ensures
            r.sort_order is None,
            r.codex_home is None,
            r.codex_args is None,
            r.worktree_setup_script is None,
    {
        WorkspaceSettings {
            sort_order: None,
            codex_home: None,
            codex_args: None,
            worktree_setup_script: None,
        }
    }

    /// A copy of these settings.
    pub fn duplicate(&self) -> (r: WorkspaceSettings)
        ensures
            r == *self,
    {
        WorkspaceSettings {
            sort_order: self.sort_order,
            codex_home: copy_opt(&self.codex_home),
            codex_args: copy_opt(&self.codex_args),
            worktree_setup_script: copy_opt(&self.worktree_setup_script),
        }
    }
}

impl WorkspaceEntry {
    /// A copy of this record.
    pub fn duplicate(&self) -> (r: WorkspaceEntry)
        ensures
            r == *self,
    {
        WorkspaceEntry {
            id: self.id.clone(),
            name: self.name.clone(),
            path: self.path.clone(),
            codex_bin: copy_opt(&self.codex_bin),
            kind: self.kind,
            parent_id: copy_opt(&self.parent_id),
            worktree: match &self.worktree {
                Some(w) => Some(WorktreeInfo { branch: w.branch.clone() }),
                None => None,
            },
            settings: self.settings.duplicate(),
        }
    }

    /// A main workspace record at `path` named `name`, with no settings.
    pub fn new_main(id: String, name: String, path: String, codex_bin: Option<String>) -> (r:
        WorkspaceEntry)
        ensures
            r.id == id,
            r.name == name,
            r.path == path,
            r.codex_bin == codex_bin,
            r.kind == WorkspaceKind::Main,
            r.parent_id is None,
            r.worktree is None,
            r.settings.sort_order is None,
            r.settings.codex_home is None,
            r.settings.codex_args is None,
            r.settings.worktree_setup_script is None,
    {
        WorkspaceEntry {
            id,
            name,
            path,
            codex_bin,
            kind: WorkspaceKind::Main,
            parent_id: None,
            worktree: None,
            settings: WorkspaceSettings::empty(),
        }
    }
}

/// The records hold a main workspace with id `id`.
pub open spec fn has_main(s: Seq<WorkspaceEntry>, id: Seq<char>) -> bool {
    exists|j: int| 0 <= j < s.len() && s[j].id@ == id && s[j].kind == WorkspaceKind::Main
}

/// Record `e` keeps the shape rules: a main workspace has no parent and no branch;
/// a worktree names a main workspace among `s` as its parent and has a branch.
pub open spec fn entry_shape_ok(s: Seq<WorkspaceEntry>, e: WorkspaceEntry) -> bool {
    match e.kind {
        WorkspaceKind::Main => e.parent_id is None && e.worktree is None,
        WorkspaceKind::Worktree => e.worktree is Some && e.parent_id is Some && has_main(
            s,
            e.parent_id->0@,
        ),
    }
}

/// The rules that the records keep.
pub open spec fn records_ok(s: Seq<WorkspaceEntry>) -> bool {
    &&& forall|i: int, j: int| 0 <= i < j < s.len() ==> s[i].id@ != s[j].id@
    &&& forall|i: int, j: int| 0 <= i < j < s.len() ==> s[i].path@ != s[j].path@
    &&& forall|i: int| 0 <= i < s.len() ==> s[i].path@.len() > 0
    &&& forall|i: int| 0 <= i < s.len() ==> entry_shape_ok(s, #[trigger] s[i])
}

/// The workspace records.
pub struct Workspaces {
    pub entries: Vec<WorkspaceEntry>,
}

impl Workspaces {
    /// The records keep their rules.
    pub open spec fn wf(&self) -> bool {
        records_ok(self.entries@)
    }

    /// No records.
    pub fn new() -> (r: Workspaces)
        ensures
            r.wf(),
            r.entries@.len() == 0,
    {
        Workspaces { entries: Vec::new() }
    }

    /// The position of the record with id `id`.
    pub fn position(&self, id: &str) -> (r: Option<usize>)
        requires
            self.wf(),
        ensures
            match r {
                Some(i) => i < self.entries@.len() && self.entries@[i as int].id@ == id@,
                None => forall|j: int| 0 <= j < self.entries@.len() ==> self.entries@[j].id@ != id@,
            },
    {
        let mut i: usize = 0;
        while i < self.entries.len()
            invariant
                i <= self.entries.len(),
                forall|j: int| 0 <= j < i ==> self.entries@[j].id@ != id@,
            decreases self.entries.len() - i,
        {
            if str_is(&self.entries[i].id, id) {
                return Some(i);
            }
            i += 1;
        }
        None
    }

    /// A copy of the record with id `id`.
    pub fn get(&self, id: &str) -> (r: Option<WorkspaceEntry>)
        requires
            self.wf(),
        ensures
            match r {
                Some(e) => exists|i: int|
                    0 <= i < self.entries@.len() && self.entries@[i] == e && e.id@ == id@,
                None => forall|j: int| 0 <= j < self.entries@.len() ==> self.entries@[j].id@ != id@,
            },
    {
        match self.position(id) {
            Some(i) => Some(self.entries[i].duplicate()),
            None => None,
        }
    }

    /// Whether some record is at `path`.
    pub fn path_in_use(&self, path: &str) -> (r: bool)
        ensures
            r == exists|j: int| 0 <= j < self.entries@.len() && self.entries@[j].path@ == path@,
    {
        let mut i: usize = 0;
        while i < self.entries.len()
            invariant
                i <= self.entries.len(),
                forall|j: int| 0 <= j < i ==> self.entries@[j].path@ != path@,
            decreases self.entries.len() - i,
        {
            if str_is(&self.entries[i].path, path) {
                return true;
            }
            i += 1;
        }
        false
    }

    /// Adds record `entry`. Refused when its path is empty, when its id or path is
    /// already in use, or when it breaks the shape rules.
    pub fn add(&mut self, entry: WorkspaceEntry) -> (r: Result<(), String>)
        requires
            old(self).wf(),
        ensures
            final(self).wf(),
            r is Ok <==> (entry.path@.len() > 0 && (forall|j: int|
                0 <= j < old(self).entries@.len() ==> old(self).entries@[j].id@ != entry.id@
                    && old(self).entries@[j].path@ != entry.path@) && entry_shape_ok(
                old(self).entries@,
                entry,
            )),
            r is Ok ==> final(self).entries@ == old(self).entries@.push(entry),
            r is Err ==> final(self).entries@ == old(self).entries@,
    {
        if crate::text::chars_of(&entry.path).len() == 0 {
            return Err(owned("Workspace path is required."));
        }
        if self.position(&entry.id).is_some() {
            return Err(owned("Workspace id is already in use."));
        }
        if self.path_in_use(&entry.path) {
            return Err(owned("Workspace path is already added."));
        }
        let shape_ok = match entry.kind {
            WorkspaceKind::Main => entry.parent_id.is_none() && entry.worktree.is_none(),
            WorkspaceKind::Worktree => {
                entry.worktree.is_some() && match &entry.parent_id {
                    Some(p) => match self.position(p) {
                        Some(i) => self.entries[i].kind == WorkspaceKind::Main,
                        None => false,
                    },
                    None => false,
                }
            },
        };
        if !shape_ok {
            proof {
                if entry.kind == WorkspaceKind::Worktree && entry.worktree is Some
                    && entry.parent_id is Some && has_main(self.entries@, entry.parent_id->0@) {
                    let j = choose|j: int|
                        0 <= j < self.entries@.len() && self.entries@[j].id@ == entry.parent_id->0@
                            && self.entries@[j].kind == WorkspaceKind::Main;
                    assert(self.entries@[j].id@ == entry.parent_id->0@);
                }
            }
            return Err(owned("Workspace record is inconsistent."));
        }
        let ghost before = self.entries@;
        self.entries.push(entry);
        proof {
            assert forall|i: int| 0 <= i < self.entries@.len() implies entry_shape_ok(
                self.entries@,
                #[trigger] self.entries@[i],
            ) by {
                let e = self.entries@[i];
                if e.kind == WorkspaceKind::Worktree {
                    assert(has_main(before, e.parent_id->0@));
                    let j = choose|j: int|
                        0 <= j < before.len() && before[j].id@ == e.parent_id->0@ && before[j].kind
                            == WorkspaceKind::Main;
                    assert(self.entries@[j] == before[j]);
                }
            }
        }
        Ok(())
    }
}


/// The record that a worktree of `parent` at `path` for `branch` gets: named after
/// the branch, with the parent's agent binary and setup script.
pub fn worktree_entry(parent: &WorkspaceEntry, id: String, branch: &str, path: String) -> (r:
    WorkspaceEntry)
    ensures
        r.id == id,
        r.name@ == branch@,
        r.path == path,
        r.codex_bin == parent.codex_bin,
        r.kind == WorkspaceKind::Worktree,
        r.parent_id == Some(parent.id),
        r.worktree matches Some(w) && w.branch@ == branch@,
        r.settings.worktree_setup_script == match parent.settings.worktree_setup_script {
            Some(v) => if crate::text::trim(v@).len() == 0 {
                None
            } else {
                Some(v)
            },
            None => None,
        },
        r.settings.sort_order is None,
        r.settings.codex_home is None,
        r.settings.codex_args is None,
{
    let mut settings = WorkspaceSettings::empty();
    settings.worktree_setup_script = normalize_setup_script(
        copy_opt(&parent.settings.worktree_setup_script),
    );
    WorkspaceEntry {
        id,
        name: owned(branch),
        path,
        codex_bin: copy_opt(&parent.codex_bin),
        kind: WorkspaceKind::Worktree,
        parent_id: Some(parent.id.clone()),
        worktree: Some(WorktreeInfo { branch: owned(branch) }),
        settings,
    }
}

/// The branch that a rename asks for: `requested` without surrounding white space.
/// Refused when that is empty, when the worktree has no branch on record, or when it
/// is the current branch.
pub fn rename_target(current_branch: Option<&String>, requested: &str) -> (r: Result<String, String>)
    ensures
        match r {
            Ok(b) => b@ == crate::text::trim(requested@) && b@.len() > 0 && current_branch is Some
                && current_branch->0@ != b@,
            Err(e) => {
                ||| (crate::text::trim(requested@).len() == 0 && e@ == "Branch name is required."@)
                ||| (crate::text::trim(requested@).len() > 0 && current_branch is None && e@
                    == "worktree metadata missing"@)
                ||| (crate::text::trim(requested@).len() > 0 && current_branch is Some
                    && current_branch->0@ == crate::text::trim(requested@) && e@
                    == "Branch name is unchanged."@)
            },
        },
{
    let trimmed = crate::text::trimmed(requested);
    if trimmed.len() == 0 {
        return Err(owned("Branch name is required."));
    }
    match current_branch {
        None => Err(owned("worktree metadata missing")),
        Some(current) => {
            if crate::text::chars_eq(&crate::text::chars_of(current), &trimmed) {
                Err(owned("Branch name is unchanged."))
            } else {
                Ok(crate::text::string_of(&trimmed))
            }
        },
    }
}

/// The name that a new main workspace at `path` gets: its last path component, or
/// `Workspace` when there is none.
pub open spec fn last_component(path: Seq<char>) -> Seq<char> {
    let t = crate::text::trim_end_char(path, '/');
    let k = if exists|i: int| 0 <= i < t.len() && t[i] == '/' {
        choose|i: int| 0 <= i < t.len() && t[i] == '/' && forall|j: int| i < j < t.len() ==> t[j] != '/'
    } else {
        -1
    };
    t.subrange(k + 1, t.len() as int)
}

/// The name of a new main workspace at `path`: its last component, unless that is
/// empty or `..`, in which case `Workspace`.
pub open spec fn workspace_name(path: Seq<char>) -> Seq<char> {
    let c = last_component(path);
    if c.len() == 0 || c == ".."@ {
        "Workspace"@
    } else {
        c
    }
}

/// The last component of `path` (see `last_component`).
pub fn last_component_of(path: &str) -> (r: String)
    ensures
        r@ == last_component(path@),
{
    let chars = crate::text::chars_of(path);
    let mut end: usize = chars.len();
    assert(chars@.take(chars.len() as int) == chars@);
    while end > 0 && chars[end - 1] == '/'
        invariant
            end <= chars.len(),
            crate::text::trim_end_char(chars@.take(end as int), '/') == crate::text::trim_end_char(
                chars@,
                '/',
            ),
        decreases end,
    {
        assert(chars@.take(end - 1) == chars@.take(end as int).drop_last());
        end -= 1;
    }
    let ghost t = chars@.take(end as int);
    assert(crate::text::trim_end_char(path@, '/') == t);
    let mut start: usize = end;
    while start > 0 && chars[start - 1] != '/'
        invariant
            start <= end <= chars.len(),
            t == chars@.take(end as int),
            forall|j: int| start <= j < end ==> t[j] != '/',
        decreases start,
    {
        start -= 1;
    }
    proof {
        if start > 0 {
            assert(t[start - 1] == '/');
            let k = choose|i: int|
                0 <= i < t.len() && t[i] == '/' && forall|j: int| i < j < t.len() ==> t[j] != '/';
            assert(k == start - 1);
        } else {
            assert(!exists|i: int| 0 <= i < t.len() && t[i] == '/');
        }
    }
    let component = crate::text::slice_chars(&chars, start, end);
    crate::text::string_of(&component)
}

/// The name of a new main workspace at `path` (see `workspace_name`).
pub fn workspace_name_for_path(path: &str) -> (r: String)
    ensures
        r@ == workspace_name(path@),
{
    let component = crate::text::chars_of(&last_component_of(path));
    let dots = vec!['.', '.'];
    proof {
        reveal_strlit("..");
        assert(dots@ =~= ".."@);
    }
    if component.len() == 0 || crate::text::chars_eq(&component, &dots) {
        owned("Workspace")
    } else {
        crate::text::string_of(&component)
    }
}

impl Workspaces {
    /// The main workspace that a new worktree of `parent_id` hangs off.
    pub fn worktree_parent(&self, parent_id: &str) -> (r: Result<WorkspaceEntry, String>)
        requires
            self.wf(),
        ensures
            match r {
                Ok(p) => p.kind == WorkspaceKind::Main && p.id@ == parent_id@ && exists|i: int|
                    0 <= i < self.entries@.len() && self.entries@[i] == p,
                Err(e) => {
                    ||| (e@ == "parent workspace not found"@ && forall|j: int|
                        0 <= j < self.entries@.len() ==> self.entries@[j].id@ != parent_id@)
                    ||| (e@ == "Cannot create a worktree from another worktree."@ && exists|i: int|
                        0 <= i < self.entries@.len() && self.entries@[i].id@ == parent_id@
                            && self.entries@[i].kind == WorkspaceKind::Worktree)
                },
            },
    {
        match self.get(parent_id) {
            None => Err(owned("parent workspace not found")),
            Some(p) => {
                if p.kind == WorkspaceKind::Worktree {
                    Err(owned("Cannot create a worktree from another worktree."))
                } else {
                    Ok(p)
                }
            },
        }
    }

    /// The worktree `id` and its parent.
    pub fn worktree_and_parent(&self, id: &str) -> (r: Result<(WorkspaceEntry, WorkspaceEntry), String>)
        requires
            self.wf(),
        ensures
            match r {
                Ok((e, p)) => e.id@ == id@ && e.kind == WorkspaceKind::Worktree && (e.parent_id matches Some(pid) && pid@ == p.id@) && p.kind == WorkspaceKind::Main && (exists|i: int|
                    0 <= i < self.entries@.len() && self.entries@[i] == e) && (exists|i: int|
                    0 <= i < self.entries@.len() && self.entries@[i] == p),
                Err(e) => {
                    ||| (e@ == "workspace not found"@ && forall|j: int|
                        0 <= j < self.entries@.len() ==> self.entries@[j].id@ != id@)
                    ||| (e@ == "Not a worktree workspace."@ && exists|i: int|
                        0 <= i < self.entries@.len() && self.entries@[i].id@ == id@
                            && self.entries@[i].kind == WorkspaceKind::Main)
                },
            },
    {
        let entry = match self.get(id) {
            None => return Err(owned("workspace not found")),
            Some(e) => e,
        };
        if entry.kind != WorkspaceKind::Worktree {
            return Err(owned("Not a worktree workspace."));
        }
        let ghost i = choose|i: int| 0 <= i < self.entries@.len() && self.entries@[i] == entry;
        assert(entry_shape_ok(self.entries@, self.entries@[i]));
        let parent_id = match &entry.parent_id {
            Some(p) => p.clone(),
            None => return Err(owned("worktree parent not found")),
        };
        match self.position(&parent_id) {
            Some(k) => {
                proof {
                    let j = choose|j: int|
                        0 <= j < self.entries@.len() && self.entries@[j].id@ == parent_id@
                            && self.entries@[j].kind == WorkspaceKind::Main;
                    if j != k as int {
                        if j < k {
                            assert(self.entries@[j].id@ != self.entries@[k as int].id@);
                        } else {
                            assert(self.entries@[k as int].id@ != self.entries@[j].id@);
                        }
                    }
                }
                let parent = self.entries[k].duplicate();
                Ok((entry, parent))
            },
            None => Err(owned("worktree parent not found")),
        }
    }
}

/// Whether two optional strings hold the same characters.
pub fn same_opt(a: &Option<String>, b: &Option<String>) -> (r: bool)
    ensures
        r == (opt_view(*a) == opt_view(*b)),
{
    match (a, b) {
        (Some(x), Some(y)) => *x == *y,
        (None, None) => true,
        _ => false,
    }
}

/// Whether a settings change alters what the agent is started with (its home
/// directory or its arguments), so that a running session must be replaced.
pub fn settings_change_needs_respawn(previous: &WorkspaceSettings, next: &WorkspaceSettings) -> (r:
    bool)
    ensures
        r == (opt_view(previous.codex_home) != opt_view(next.codex_home) || opt_view(
            previous.codex_args,
        ) != opt_view(next.codex_args)),
{
    !same_opt(&previous.codex_home, &next.codex_home) || !same_opt(
        &previous.codex_args,
        &next.codex_args,
    )
}

/// Record `e` is a worktree of workspace `parent`.
pub open spec fn is_child_of(e: WorkspaceEntry, parent: Seq<char>) -> bool {
    e.parent_id matches Some(p) && p@ == parent
}

/// `e` with `settings` in place of its own.
pub open spec fn with_settings(e: WorkspaceEntry, settings: WorkspaceSettings) -> WorkspaceEntry {
    WorkspaceEntry { settings, ..e }
}

/// `e` with the setup script `script`.
pub open spec fn with_script(e: WorkspaceEntry, script: Option<String>) -> WorkspaceEntry {
    WorkspaceEntry { settings: WorkspaceSettings { worktree_setup_script: script, ..e.settings }, ..e }
}

/// Records that differ only in names and settings keep the same rules.
pub proof fn lemma_same_skeleton(a: Seq<WorkspaceEntry>, b: Seq<WorkspaceEntry>)
    requires
        records_ok(a),
        a.len() == b.len(),
        forall|j: int|
            0 <= j < a.len() ==> (#[trigger] b[j]).id == a[j].id && b[j].path == a[j].path
                && b[j].kind == a[j].kind && b[j].parent_id == a[j].parent_id && b[j].worktree
                == a[j].worktree,
    ensures
        records_ok(b),
{
    assert forall|j: int| 0 <= j < b.len() implies entry_shape_ok(b, #[trigger] b[j]) by {
        assert(entry_shape_ok(a, a[j]));
        if b[j].kind == WorkspaceKind::Worktree {
            let m = choose|m: int|
                0 <= m < a.len() && a[m].id@ == a[j].parent_id->0@ && a[m].kind
                    == WorkspaceKind::Main;
            assert(b[m].id == a[m].id);
        }
    }
}

/// Gives the setup script `script` to every worktree of `parent_id` but the record
/// at `skip`.
fn spread_script(
    entries: &mut Vec<WorkspaceEntry>,
    skip: usize,
    parent_id: &str,
    script: &Option<String>,
)
    ensures
        final(entries)@.len() == old(entries)@.len(),
        forall|j: int|
            0 <= j < old(entries)@.len() ==> #[trigger] final(entries)@[j] == if j != skip
                && is_child_of(old(entries)@[j], parent_id@) {
                with_script(old(entries)@[j], *script)
            } else {
                old(entries)@[j]
            },
{
    let mut k: usize = 0;
    while k < entries.len()
        invariant
            k <= entries.len() == old(entries)@.len(),
            forall|j: int|
                0 <= j < old(entries)@.len() ==> #[trigger] entries@[j] == if j < k && j != skip
                    && is_child_of(old(entries)@[j], parent_id@) {
                    with_script(old(entries)@[j], *script)
                } else {
                    old(entries)@[j]
                },
        decreases entries.len() - k,
    {
        if k != skip {
            let is_child = match &entries[k].parent_id {
                Some(p) => str_is(p, parent_id),
                None => false,
            };
            if is_child {
                let mut child = entries[k].duplicate();
                child.settings.worktree_setup_script = copy_opt(script);
                entries.set(k, child);
            }
        }
        k += 1;
    }
}

/// `after` is `before` once record `i` takes `settings`, with a blank setup script
/// taken as none, and, when record `i` is a main workspace whose setup script
/// changes, each of its worktrees takes the new script.
pub open spec fn settings_applied(
    before: Seq<WorkspaceEntry>,
    after: Seq<WorkspaceEntry>,
    i: int,
    settings: WorkspaceSettings,
) -> bool {
    let script = match settings.worktree_setup_script {
        Some(v) => if crate::text::trim(v@).len() == 0 {
            None
        } else {
            Some(v)
        },
        None => None,
    };
    let next = WorkspaceSettings { worktree_setup_script: script, ..settings };
    let prev = before[i];
    let spread = prev.kind == WorkspaceKind::Main && opt_view(prev.settings.worktree_setup_script)
        != opt_view(script);
    &&& after.len() == before.len()
    &&& forall|j: int|
        0 <= j < before.len() ==> #[trigger] after[j] == if j == i {
            with_settings(before[j], next)
        } else if spread && is_child_of(before[j], prev.id@) {
            with_script(before[j], script)
        } else {
            before[j]
        }
}

impl Workspaces {
    /// The worktrees of `parent_id`.
    pub fn children_of(&self, parent_id: &str) -> (r: Vec<WorkspaceEntry>)
        ensures
            forall|k: int| 0 <= k < r@.len() ==> is_child_of(#[trigger] r@[k], parent_id@),
            forall|k: int| 0 <= k < r@.len() ==> self.entries@.contains(#[trigger] r@[k]),
            forall|j: int|
                0 <= j < self.entries@.len() && is_child_of(#[trigger] self.entries@[j], parent_id@)
                    ==> r@.contains(self.entries@[j]),
    {
        let mut out: Vec<WorkspaceEntry> = Vec::new();
        let mut i: usize = 0;
        while i < self.entries.len()
            invariant
                i <= self.entries.len(),
                forall|k: int| 0 <= k < out@.len() ==> is_child_of(#[trigger] out@[k], parent_id@),
                forall|k: int| 0 <= k < out@.len() ==> self.entries@.contains(#[trigger] out@[k]),
                forall|j: int|
                    0 <= j < i && is_child_of(#[trigger] self.entries@[j], parent_id@)
                        ==> out@.contains(self.entries@[j]),
            decreases self.entries.len() - i,
        {
            let is_child = match &self.entries[i].parent_id {
                Some(p) => str_is(p, parent_id),
                None => false,
            };
            if is_child {
                let ghost before = out@;
                out.push(self.entries[i].duplicate());
                proof {
                    assert(out@[before.len() as int] == self.entries@[i as int]);
                    assert forall|k: int| 0 <= k < out@.len() implies self.entries@.contains(
                        #[trigger] out@[k],
                    ) by {
                        if k < before.len() {
                            assert(out@[k] == before[k]);
                        } else {
                            assert(self.entries@[i as int] == out@[k]);
                        }
                    }
                    assert forall|j: int|
                        0 <= j < i + 1 && is_child_of(#[trigger] self.entries@[j], parent_id@)
                            implies out@.contains(self.entries@[j]) by {
                        if j < i {
                            let k = choose|k: int| 0 <= k < before.len() && before[k] == self.entries@[j];
                            assert(out@[k] == self.entries@[j]);
                        }
                    }
                }
            }
            i += 1;
        }
        out
    }

    /// Renames worktree `id` to `branch` at `path`: its name and branch become
    /// `branch`. Refused when there is no such worktree or another record is at `path`.
    pub fn rename_worktree_entry(&mut self, id: &str, branch: &str, path: String) -> (r: Result<
        WorkspaceEntry,
        String,
    >)
        requires
            old(self).wf(),
        ensures
            final(self).wf(),
            match r {
                Ok(e) => exists|i: int|
                    0 <= i < old(self).entries@.len() && old(self).entries@[i].id@ == id@
                        && old(self).entries@[i].kind == WorkspaceKind::Worktree && e == (
                    WorkspaceEntry {
                        name: e.name,
                        path: e.path,
                        worktree: e.worktree,
                        ..old(self).entries@[i]
                    }) && e.name@ == branch@ && e.path == path && (e.worktree matches Some(w)
                        && w.branch@ == branch@) && final(self).entries@ == old(
                        self,
                    ).entries@.update(i, e),
                Err(_) => final(self).entries@ == old(self).entries@,
            },
            r is Err <==> (path@.len() == 0 || (forall|j: int|
                0 <= j < old(self).entries@.len() ==> old(self).entries@[j].id@ != id@) || (exists|
                j: int|
                0 <= j < old(self).entries@.len() && old(self).entries@[j].id@ == id@ && old(
                    self,
                ).entries@[j].kind == WorkspaceKind::Main) || (exists|j: int|
                0 <= j < old(self).entries@.len() && old(self).entries@[j].id@ != id@ && old(
                    self,
                ).entries@[j].path@ == path@)),
    {
        let i = match self.position(id) {
            Some(i) => i,
            None => return Err(owned("workspace not found")),
        };
        if self.entries[i].kind != WorkspaceKind::Worktree {
            proof {
                assert(self.entries@[i as int].kind == WorkspaceKind::Main);
            }
            return Err(owned("Not a worktree workspace."));
        }
        if crate::text::chars_of(&path).len() == 0 {
            return Err(owned("Workspace path is required."));
        }
        let mut k: usize = 0;
        while k < self.entries.len()
            invariant
                k <= self.entries.len(),
                i < self.entries.len(),
                self.entries@[i as int].id@ == id@,
                self.wf(),
                forall|j: int| 0 <= j < k && j != i ==> self.entries@[j].path@ != path@,
            decreases self.entries.len() - k,
        {
            if k != i && str_is(&self.entries[k].path, &path) {
                proof {
                    if k < i {
                        assert(self.entries@[k as int].id@ != self.entries@[i as int].id@);
                    } else {
                        assert(self.entries@[i as int].id@ != self.entries@[k as int].id@);
                    }
                }
                return Err(owned("Workspace path is already added."));
            }
            k += 1;
        }
        proof {
            assert forall|j: int|
                0 <= j < self.entries@.len() && self.entries@[j].id@ == id@ implies j == i by {
                if j < i {
                    assert(self.entries@[j].id@ != self.entries@[i as int].id@);
                } else if j > i {
                    assert(self.entries@[i as int].id@ != self.entries@[j].id@);
                }
            }
        }
        let mut e = self.entries[i].duplicate();
        e.name = owned(branch);
        e.path = path;
        e.worktree = Some(WorktreeInfo { branch: owned(branch) });
        let ghost before = self.entries@;
        self.entries.set(i, e.duplicate());
        proof {
            assert(self.entries@ == before.update(i as int, e));
            assert forall|j: int| 0 <= j < self.entries@.len() implies entry_shape_ok(
                self.entries@,
                #[trigger] self.entries@[j],
            ) by {
                let f = self.entries@[j];
                assert(entry_shape_ok(before, before[j]));
                if f.kind == WorkspaceKind::Worktree {
                    let m = choose|m: int|
                        0 <= m < before.len() && before[m].id@ == f.parent_id->0@ && before[m].kind
                            == WorkspaceKind::Main;
                    assert(m != i);
                    assert(self.entries@[m] == before[m]);
                }
            }
        }
        Ok(e)
    }

    /// Removes record `id`. Refused when there is none, and for a main workspace that
    /// still has worktrees.
    pub fn remove_entry(&mut self, id: &str) -> (r: Result<WorkspaceEntry, String>)
        requires
            old(self).wf(),
        ensures
            final(self).wf(),
            match r {
                Ok(e) => exists|i: int|
                    0 <= i < old(self).entries@.len() && old(self).entries@[i] == e && e.id@ == id@
                        && final(self).entries@ == old(self).entries@.remove(i),
                Err(_) => final(self).entries@ == old(self).entries@,
            },
            r is Err <==> ((forall|j: int|
                0 <= j < old(self).entries@.len() ==> old(self).entries@[j].id@ != id@) || (exists|
                i: int,
                j: int|
                0 <= i < old(self).entries@.len() && 0 <= j < old(self).entries@.len() && old(
                    self,
                ).entries@[i].id@ == id@ && old(self).entries@[i].kind == WorkspaceKind::Main
                    && is_child_of(old(self).entries@[j], id@))),
    {
        let i = match self.position(id) {
            Some(i) => i,
            None => return Err(owned("workspace not found")),
        };
        proof {
            assert forall|j: int|
                0 <= j < self.entries@.len() && self.entries@[j].id@ == id@ implies j == i by {
                if j < i {
                    assert(self.entries@[j].id@ != self.entries@[i as int].id@);
                } else if j > i {
                    assert(self.entries@[i as int].id@ != self.entries@[j].id@);
                }
            }
        }
        if self.entries[i].kind == WorkspaceKind::Main {
            let children = self.children_of(id);
            if children.len() > 0 {
                proof {
                    let c = children@[0];
                    assert(self.entries@.contains(c));
                    let j = choose|j: int| 0 <= j < self.entries@.len() && self.entries@[j] == c;
                    assert(is_child_of(self.entries@[j], id@));
                }
                return Err(owned("Remove the worktrees of this workspace first."));
            }
        }
        let ghost before = self.entries@;
        let removed = self.entries.remove(i);
        proof {
            assert forall|a: int, b: int| 0 <= a < b < self.entries@.len() implies self.entries@[a].id@
                != self.entries@[b].id@ by {
                let a0 = if a < i { a } else { a + 1 };
                let b0 = if b < i { b } else { b + 1 };
                assert(self.entries@[a] == before[a0]);
                assert(self.entries@[b] == before[b0]);
            }
            assert forall|a: int, b: int| 0 <= a < b < self.entries@.len() implies self.entries@[a].path@
                != self.entries@[b].path@ by {
                let a0 = if a < i { a } else { a + 1 };
                let b0 = if b < i { b } else { b + 1 };
                assert(self.entries@[a] == before[a0]);
                assert(self.entries@[b] == before[b0]);
            }
            assert forall|a: int| 0 <= a < self.entries@.len() implies self.entries@[a].path@.len() > 0 by {
                let a0 = if a < i { a } else { a + 1 };
                assert(self.entries@[a] == before[a0]);
            }
            assert forall|a: int| 0 <= a < self.entries@.len() implies entry_shape_ok(
                self.entries@,
                #[trigger] self.entries@[a],
            ) by {
                let a0 = if a < i { a } else { a + 1 };
                assert(self.entries@[a] == before[a0]);
                assert(entry_shape_ok(before, before[a0]));
                let f = before[a0];
                if f.kind == WorkspaceKind::Worktree {
                    let m = choose|m: int|
                        0 <= m < before.len() && before[m].id@ == f.parent_id->0@ && before[m].kind
                            == WorkspaceKind::Main;
                    if m == i {
                        assert(is_child_of(before[a0], id@));
                    }
                    let m1 = if m < i { m } else { m - 1 };
                    assert(self.entries@[m1] == before[m]);
                }
            }
        }
        Ok(removed)
    }

    /// Gives workspace `id` the settings `settings`, with a blank setup script taken
    /// as none. When `id` is a main workspace whose setup script changes, each of its
    /// worktrees takes the new script. Hands back the record as it was.
    #[verifier::rlimit(40)]
    pub fn update_settings(&mut self, id: &str, settings: WorkspaceSettings) -> (r: Result<
        WorkspaceEntry,
        String,
    >)
        requires
            old(self).wf(),
        ensures
            final(self).wf(),
            match r {
                Ok(prev) => exists|i: int|
                    0 <= i < old(self).entries@.len() && old(self).entries@[i] == prev && prev.id@
                        == id@ && settings_applied(
                        old(self).entries@,
                        final(self).entries@,
                        i,
                        settings,
                    ),
                Err(e) => e@ == "workspace not found"@ && final(self).entries@ == old(self).entries@
                    && forall|j: int|
                    0 <= j < old(self).entries@.len() ==> old(self).entries@[j].id@ != id@,
            },
    {
        let i = match self.position(id) {
            Some(i) => i,
            None => return Err(owned("workspace not found")),
        };
        let mut next = settings;
        next.worktree_setup_script = normalize_setup_script(next.worktree_setup_script);
        let prev = self.entries[i].duplicate();
        let spread = prev.kind == WorkspaceKind::Main && !same_opt(
            &prev.settings.worktree_setup_script,
            &next.worktree_setup_script,
        );
        let ghost before = self.entries@;
        let mut updated = prev.duplicate();
        updated.settings = next.duplicate();
        self.entries.set(i, updated);
        let ghost middle = self.entries@;
        if spread {
            spread_script(&mut self.entries, i, id, &next.worktree_setup_script);
        }
        proof {
            assert forall|j: int| 0 <= j < before.len() implies (#[trigger] self.entries@[j]).id
                == before[j].id && self.entries@[j].path == before[j].path && self.entries@[j].kind
                == before[j].kind && self.entries@[j].parent_id == before[j].parent_id
                && self.entries@[j].worktree == before[j].worktree by {
                assert(middle[j].id == before[j].id);
            }
            lemma_same_skeleton(before, self.entries@);
            let script = next.worktree_setup_script;
            assert forall|j: int| 0 <= j < before.len() implies #[trigger] self.entries@[j] == if j
                == i {
                with_settings(before[j], next)
            } else if spread && is_child_of(before[j], id@) {
                with_script(before[j], script)
            } else {
                before[j]
            } by {
                if j != i {
                    assert(middle[j] == before[j]);
                }
            }
            assert(settings_applied(before, self.entries@, i as int, settings));
        }
        Ok(prev)
    }
}

/// A workspace as the control plane lists it.
pub struct WorkspaceInfo {
    pub entry: WorkspaceEntry,
    pub connected: bool,
}

/// The position of a workspace in listings: its sort order, unset counting as last.
pub open spec fn order_of(w: WorkspaceInfo) -> u32 {
    match w.entry.settings.sort_order {
        Some(o) => o,
        None => u32::MAX,
    }
}

/// `a` is listed strictly before `b`: a smaller sort order, or an equal one and a
/// name that comes first.
pub open spec fn listed_before(a: WorkspaceInfo, b: WorkspaceInfo) -> bool {
    order_of(a) < order_of(b) || (order_of(a) == order_of(b) && crate::text::seq_less(
        a.entry.name@,
        b.entry.name@,
    ))
}

/// `s` is in listing order.
pub open spec fn in_listing_order(s: Seq<WorkspaceInfo>) -> bool {
    forall|i: int, j: int| 0 <= i < j < s.len() ==> !listed_before(s[j], s[i])
}

proof fn lemma_listed_before_transitive(a: WorkspaceInfo, b: WorkspaceInfo, c: WorkspaceInfo)
    requires
        listed_before(a, b),
        listed_before(b, c),
    ensures
        listed_before(a, c),
{
    if order_of(a) == order_of(b) && order_of(b) == order_of(c) {
        crate::text::lemma_seq_less_transitive(a.entry.name@, b.entry.name@, c.entry.name@);
    }
}

proof fn lemma_listed_before_asymmetric(a: WorkspaceInfo, b: WorkspaceInfo)
    requires
        listed_before(a, b),
    ensures
        !listed_before(b, a),
{
    if listed_before(b, a) && order_of(a) == order_of(b) {
        crate::text::lemma_seq_less_transitive(a.entry.name@, b.entry.name@, a.entry.name@);
        crate::text::lemma_seq_less_irreflexive(a.entry.name@);
    }
}

/// Whether `a` is listed strictly before `b`.
fn listed_before_exec(a: &WorkspaceInfo, b: &WorkspaceInfo) -> (r: bool)
    ensures
        r == listed_before(*a, *b),
{
    let oa = match a.entry.settings.sort_order {
        Some(o) => o,
        None => u32::MAX,
    };
    let ob = match b.entry.settings.sort_order {
        Some(o) => o,
        None => u32::MAX,
    };
    if oa != ob {
        oa < ob
    } else {
        crate::text::chars_less(
            &crate::text::chars_of(&a.entry.name),
            &crate::text::chars_of(&b.entry.name),
        )
    }
}

/// Puts `workspaces` in listing order: by sort order, unset last, then by name. The
/// order among workspaces that tie is kept.
pub fn sort_workspaces(workspaces: &mut Vec<WorkspaceInfo>)
    ensures
        in_listing_order(final(workspaces)@),
        final(workspaces)@.to_multiset() == old(workspaces)@.to_multiset(),
{
    let mut sorted: Vec<WorkspaceInfo> = Vec::new();
    let mut rest: Vec<WorkspaceInfo> = Vec::new();
    std::mem::swap(&mut rest, workspaces);
    let ghost all = rest@;
    let mut n: usize = rest.len();
    proof {
        sorted@.to_multiset_ensures();
        assert(sorted@.to_multiset() =~= vstd::multiset::Multiset::empty());
        assert(sorted@.to_multiset().add(rest@.to_multiset()) =~= all.to_multiset());
    }
    while n > 0
        invariant
            n == rest@.len(),
            in_listing_order(sorted@),
            sorted@.to_multiset().add(rest@.to_multiset()) == all.to_multiset(),
        decreases n,
    {
        let ghost before_rest = rest@;
        let x = rest.remove(0);
        assert(x == before_rest[0]);
        proof {
            before_rest.to_multiset_ensures();
        }
        assert(rest@ == before_rest.remove(0));
        assert(before_rest.remove(0).to_multiset() =~= before_rest.to_multiset().remove(x));
        n -= 1;
        let mut p: usize = 0;
        while p < sorted.len() && !listed_before_exec(&x, &sorted[p])
            invariant
                p <= sorted.len(),
                forall|i: int| 0 <= i < p ==> !listed_before(x, sorted@[i]),
            decreases sorted.len() - p,
        {
            p += 1;
        }
        let ghost before = sorted@;
        sorted.insert(p, x);
        proof {
            sorted@.to_multiset_ensures();
            assert(sorted@.remove(p as int) =~= before);
            assert(sorted@[p as int] == x);
            assert(sorted@.contains(x));
            assert(sorted@.to_multiset().count(x) > 0);
            assert(before.to_multiset() =~= sorted@.to_multiset().remove(x));
            assert(sorted@.to_multiset() =~= before.to_multiset().insert(x));
            assert(before_rest.contains(x));
            assert(before_rest.to_multiset().count(x) > 0);
            assert(sorted@.to_multiset().add(rest@.to_multiset()) =~= all.to_multiset());
            assert forall|i: int, j: int| 0 <= i < j < sorted@.len() implies !listed_before(
                sorted@[j],
                sorted@[i],
            ) by {
                if j < p {
                    assert(sorted@[i] == before[i] && sorted@[j] == before[j]);
                } else if j == p {
                    assert(sorted@[i] == before[i]);
                } else if i == p {
                    assert(sorted@[j] == before[j - 1]);
                    if p < before.len() && listed_before(before[j - 1], x) {
                        assert(listed_before(x, before[p as int]));
                        if j - 1 == p {
                            lemma_listed_before_asymmetric(x, before[p as int]);
                        } else {
                            lemma_listed_before_transitive(before[j - 1], x, before[p as int]);
                            assert(!listed_before(before[j - 1], before[p as int]));
                        }
                    }
                } else if i < p {
                    assert(sorted@[i] == before[i] && sorted@[j] == before[j - 1]);
                } else {
                    assert(sorted@[i] == before[i - 1] && sorted@[j] == before[j - 1]);
                }
            }
        }
    }
    proof {
        rest@.to_multiset_ensures();
        assert(rest@.to_multiset() =~= vstd::multiset::Multiset::empty());
        assert(sorted@.to_multiset() =~= all.to_multiset());
    }
    *workspaces = sorted;
}

/// Whether the setup script of `entry` is still to run, given whether its marker
/// exists, and the script: only a worktree with a non-blank script and no marker
/// runs it.
pub fn worktree_setup_status(entry: &WorkspaceEntry, marker_exists: bool) -> (r: (bool, Option<
    String,
>))
    ensures
        r.1 == match entry.settings.worktree_setup_script {
            Some(v) => if crate::text::trim(v@).len() == 0 {
                None
            } else {
                Some(v)
            },
            None => None,
        },
        r.0 == (entry.kind == WorkspaceKind::Worktree && r.1 is Some && !marker_exists),
{
    let script = normalize_setup_script(copy_opt(&entry.settings.worktree_setup_script));
    let should_run = entry.kind == WorkspaceKind::Worktree && script.is_some() && !marker_exists;
    (should_run, script)
}

impl Workspaces {
    /// Gives workspace `id` the agent binary `codex_bin`; hands back the record as it
    /// now is.
    pub fn set_codex_bin(&mut self, id: &str, codex_bin: Option<String>) -> (r: Result<
        WorkspaceEntry,
        String,
    >)
        requires
            old(self).wf(),
        ensures
            final(self).wf(),
            match r {
                Ok(e) => exists|i: int|
                    0 <= i < old(self).entries@.len() && old(self).entries@[i].id@ == id@ && e == (
                    WorkspaceEntry { codex_bin: codex_bin, ..old(self).entries@[i] })
                        && final(self).entries@ == old(self).entries@.update(i, e),
                Err(e) => e@ == "workspace not found"@ && final(self).entries@ == old(self).entries@
                    && forall|j: int|
                    0 <= j < old(self).entries@.len() ==> old(self).entries@[j].id@ != id@,
            },
    {
        let i = match self.position(id) {
            Some(i) => i,
            None => return Err(owned("workspace not found")),
        };
        let mut e = self.entries[i].duplicate();
        e.codex_bin = codex_bin;
        let ghost before = self.entries@;
        self.entries.set(i, e.duplicate());
        proof {
            assert(self.entries@ == before.update(i as int, e));
            assert forall|j: int| 0 <= j < before.len() implies (#[trigger] self.entries@[j]).id
                == before[j].id && self.entries@[j].path == before[j].path && self.entries@[j].kind
                == before[j].kind && self.entries@[j].parent_id == before[j].parent_id
                && self.entries@[j].worktree == before[j].worktree by {}
            lemma_same_skeleton(before, self.entries@);
        }
        Ok(e)
    }
}

/// A setting as a workspace sees it: its own, else its parent's.
pub open spec fn inherited(own: Option<String>, parent: Option<String>) -> Option<Seq<char>> {
    if own is Some {
        opt_view(own)
    } else {
        opt_view(parent)
    }
}

/// A setting as a workspace sees it (see `inherited`).
pub fn effective_setting(own: &Option<String>, parent: &Option<String>) -> (r: Option<String>)
    ensures
        opt_view(r) == inherited(*own, *parent),
{
    match own {
        Some(v) => Some(v.clone()),
        None => copy_opt(parent),
    }
}

/// Whether a worktree with settings `child` must be respawned when its parent's
/// settings go from `previous` to `next`: the home directory or the arguments that
/// it inherits change.
pub fn child_needs_respawn(
    child: &WorkspaceSettings,
    previous: &WorkspaceSettings,
    next: &WorkspaceSettings,
) -> (r: bool)
    ensures
        r == (inherited(child.codex_home, previous.codex_home) != inherited(
            child.codex_home,
            next.codex_home,
        ) || inherited(child.codex_args, previous.codex_args) != inherited(
            child.codex_args,
            next.codex_args,
        )),
{
    let home_before = effective_setting(&child.codex_home, &previous.codex_home);
    let home_after = effective_setting(&child.codex_home, &next.codex_home);
    let args_before = effective_setting(&child.codex_args, &previous.codex_args);
    let args_after = effective_setting(&child.codex_args, &next.codex_args);
    !same_opt(&home_before, &home_after) || !same_opt(&args_before, &args_after)
}
} // verus!
