//! Naming for git worktrees: filesystem-safe directory names, unique checkout paths
//! and branch names, the setup-script marker, and the git argument lists that
//! create, move and remove a worktree.
use vstd::prelude::*;
use crate::assoc::strs_view;
use crate::text::{
    chars_eq, chars_of, concat_chars, contains_seq, decimal, decimal_chars, is_ascii_alnum,
    replace_chars, replace_seq, str_contains, str_is, string_of, trim, trim_chars, trim_end_char,
    trim_start_char,
};

verus! {

/// The characters kept as they are in a worktree directory name.
pub open spec fn is_safe_name_char(c: char) -> bool {
    ('a' <= c && c <= 'z') || ('A' <= c && c <= 'Z') || ('0' <= c && c <= '9') || c == '-' || c
        == '_' || c == '.'
}

/// The directory name for `branch`: each unsafe character becomes `-`, leading and
/// trailing `-` are dropped, and an empty result becomes `worktree`.
pub open spec fn sanitized_name(branch: Seq<char>) -> Seq<char> {
    let mapped = branch.map_values(|c: char| if is_safe_name_char(c) { c } else { '-' });
    let trimmed = trim_end_char(trim_start_char(mapped, '-'), '-');
    if trimmed.len() == 0 {
        "worktree"@
    } else {
        trimmed
    }
}

/// `name` joined under directory `base` with one separator.
pub open spec fn joined(base: Seq<char>, name: Seq<char>) -> Seq<char> {
    if base.len() == 0 || base.last() == '/' {
        base + name
    } else {
        base + seq!['/'] + name
    }
}

/// `name` with the suffix `-k`.
pub open spec fn suffixed(name: Seq<char>, k: nat) -> Seq<char> {
    name + seq!['-'] + decimal(k)
}

/// The `k`-th name tried for `name`: `name` itself first, then `name-2`, `name-3`, ...
pub open spec fn nth_name(name: Seq<char>, k: nat) -> Seq<char> {
    if k <= 1 {
        name
    } else {
        suffixed(name, k)
    }
}

/// The largest suffix tried.
pub open spec fn last_try() -> nat {
    999
}

/// `p` is among `taken`.
pub open spec fn is_taken(taken: Seq<String>, p: Seq<char>) -> bool {
    strs_view(taken).contains(p)
}

/// The message of a failed search for a free path under `base`.
pub open spec fn no_free_path_message(base: Seq<char>) -> Seq<char> {
    "Failed to find an available worktree path under "@ + base + "."@
}

/// `v` without leading and trailing copies of `c`.
fn trim_char_both(v: &Vec<char>, c: char) -> (r: Vec<char>)
    ensures
        r@ == trim_end_char(trim_start_char(v@, c), c),
{
    let mut start: usize = 0;
    assert(v@.skip(0) == v@);
    while start < v.len() && v[start] == c
        invariant
            start <= v.len(),
            trim_start_char(v@.skip(start as int), c) == trim_start_char(v@, c),
        decreases v.len() - start,
    {
        assert(v@.skip(start + 1) == v@.skip(start as int).drop_first());
        start += 1;
    }
    let mut end: usize = v.len();
    assert(v@.subrange(start as int, v.len() as int) == v@.skip(start as int));
    while end > start && v[end - 1] == c
        invariant
            start <= end <= v.len(),
            trim_end_char(v@.subrange(start as int, end as int), c) == trim_end_char(
                trim_start_char(v@, c),
                c,
            ),
        decreases end,
    {
        assert(v@.subrange(start as int, end - 1) == v@.subrange(start as int, end as int).drop_last());
        end -= 1;
    }
    crate::text::slice_chars(v, start, end)
}

/// The filesystem-safe directory name for `branch` (see `sanitized_name`).
pub fn sanitize_worktree_name(branch: &str) -> (r: String)
    ensures
        r@ == sanitized_name(branch@),
{
    let chars = chars_of(branch);
    let mut mapped: Vec<char> = Vec::new();
    let mut i: usize = 0;
    while i < chars.len()
        invariant
            i <= chars.len(),
            mapped@ == chars@.take(i as int).map_values(
                |c: char| if is_safe_name_char(c) { c } else { '-' },
            ),
        decreases chars.len() - i,
    {
        let c = chars[i];
        mapped.push(if is_ascii_alnum(c) || c == '-' || c == '_' || c == '.' { c } else { '-' });
        assert(chars@.take(i + 1) == chars@.take(i as int).push(c));
        i += 1;
    }
    assert(chars@.take(chars.len() as int) == chars@);
    let trimmed = trim_char_both(&mapped, '-');
    if trimmed.len() == 0 {
        crate::text::owned("worktree")
    } else {
        string_of(&trimmed)
    }
}

/// `name` joined under directory `base` (see `joined`).
pub fn join_path(base: &str, name: &str) -> (r: String)
    ensures
        r@ == joined(base@, name@),
{
    let b = chars_of(base);
    let n = chars_of(name);
    if b.len() == 0 || b[b.len() - 1] == '/' {
        string_of(&concat_chars(&b, &n))
    } else {
        let with_sep = concat_chars(&b, &vec!['/']);
        string_of(&concat_chars(&with_sep, &n))
    }
}

/// `name` with the suffix `-k`.
fn suffixed_name(name: &str, k: u64) -> (r: String)
    ensures
        r@ == suffixed(name@, k as nat),
{
    let with_dash = concat_chars(&chars_of(name), &vec!['-']);
    string_of(&concat_chars(&with_dash, &decimal_chars(k)))
}

/// Whether `taken` holds `p`.
fn taken_contains(taken: &Vec<String>, p: &String) -> (r: bool)
    ensures
        r == is_taken(taken@, p@),
{
    crate::assoc::strs_contains(taken, p)
}

/// The first free checkout path for `name` under `base_dir`: `base_dir/name`, else
/// `base_dir/name-2`, and so on up to `-999`. A path is free when `taken` does not
/// hold it.
pub fn unique_worktree_path(base_dir: &str, name: &str, taken: &Vec<String>) -> (r: Result<
    String,
    String,
>)
    ensures
        match r {
            Ok(p) => exists|k: nat|
                1 <= k <= last_try() && p@ == joined(base_dir@, nth_name(name@, k)) && !is_taken(
                    taken@,
                    p@,
                ) && forall|j: nat|
                    1 <= j < k ==> is_taken(taken@, #[trigger] joined(base_dir@, nth_name(name@, j))),
            Err(e) => e@ == no_free_path_message(base_dir@) && forall|j: nat|
                1 <= j <= last_try() ==> is_taken(
                    taken@,
                    #[trigger] joined(base_dir@, nth_name(name@, j)),
                ),
        },
{
    let mut k: u64 = 1;
    while k <= 999
        invariant
            1 <= k <= 1000,
            forall|j: nat|
                1 <= j < k ==> is_taken(taken@, #[trigger] joined(base_dir@, nth_name(name@, j))),
        decreases 1000 - k,
    {
        let candidate_name = if k == 1 {
            crate::text::owned(name)
        } else {
            suffixed_name(name, k)
        };
        let candidate = join_path(base_dir, &candidate_name);
        assert(candidate@ == joined(base_dir@, nth_name(name@, k as nat)));
        if !taken_contains(taken, &candidate) {
            return Ok(candidate);
        }
        k += 1;
    }
    let head = concat_chars(
        &chars_of("Failed to find an available worktree path under "),
        &chars_of(base_dir),
    );
    Err(string_of(&concat_chars(&head, &chars_of("."))))
}

/// The checkout path for `name` under `base_dir` when a worktree now at
/// `current_path` is renamed: as `unique_worktree_path`, except that the current
/// path counts as free.
pub fn unique_worktree_path_for_rename(
    base_dir: &str,
    name: &str,
    current_path: &str,
    taken: &Vec<String>,
) -> (r: Result<String, String>)
    ensures
        match r {
            Ok(p) => exists|k: nat|
                1 <= k <= last_try() && p@ == joined(base_dir@, nth_name(name@, k)) && (p@
                    == current_path@ || !is_taken(taken@, p@)) && forall|j: nat|
                    1 <= j < k ==> #[trigger] joined(base_dir@, nth_name(name@, j)) != current_path@
                        && is_taken(taken@, joined(base_dir@, nth_name(name@, j))),
            Err(e) => e@ == no_free_path_message(base_dir@) && forall|j: nat|
                1 <= j <= last_try() ==> #[trigger] joined(base_dir@, nth_name(name@, j))
                    != current_path@ && is_taken(taken@, joined(base_dir@, nth_name(name@, j))),
        },
{
    let current = chars_of(current_path);
    let mut k: u64 = 1;
    while k <= 999
        invariant
            1 <= k <= 1000,
            current@ == current_path@,
            forall|j: nat|
                1 <= j < k ==> #[trigger] joined(base_dir@, nth_name(name@, j)) != current_path@
                    && is_taken(taken@, joined(base_dir@, nth_name(name@, j))),
        decreases 1000 - k,
    {
        let candidate_name = if k == 1 {
            crate::text::owned(name)
        } else {
            suffixed_name(name, k)
        };
        let candidate = join_path(base_dir, &candidate_name);
        assert(candidate@ == joined(base_dir@, nth_name(name@, k as nat)));
        if chars_eq(&chars_of(&candidate), &current) || !taken_contains(taken, &candidate) {
            return Ok(candidate);
        }
        k += 1;
    }
    let head = concat_chars(
        &chars_of("Failed to find an available worktree path under "),
        &chars_of(base_dir),
    );
    Err(string_of(&concat_chars(&head, &chars_of("."))))
}

/// The first free branch name for `desired`: `desired` itself, else `desired-2`, and
/// so on up to `-999`, with whether a suffix was added. A name is free when `taken`
/// (the local branches, and those of the remote that will receive it) does not hold
/// it. An empty `desired` is handed back as it is.
pub fn unique_branch_name(desired: &str, taken: &Vec<String>) -> (r: Result<(String, bool), String>)
    ensures
        desired@.len() == 0 ==> (r matches Ok(p) && p.0@ == desired@ && !p.1),
        desired@.len() > 0 ==> match r {
            Ok(p) => exists|k: nat|
                1 <= k <= last_try() && p.0@ == nth_name(desired@, k) && p.1 == (k > 1)
                    && !is_taken(taken@, p.0@) && forall|j: nat|
                    1 <= j < k ==> is_taken(taken@, #[trigger] nth_name(desired@, j)),
            Err(e) => e@ == "Unable to find an available branch name."@ && forall|j: nat|
                1 <= j <= last_try() ==> is_taken(taken@, #[trigger] nth_name(desired@, j)),
        },
{
    if chars_of(desired).len() == 0 {
        return Ok((crate::text::owned(desired), false));
    }
    let mut k: u64 = 1;
    while k <= 999
        invariant
            1 <= k <= 1000,
            desired@.len() > 0,
            forall|j: nat| 1 <= j < k ==> is_taken(taken@, #[trigger] nth_name(desired@, j)),
        decreases 1000 - k,
    {
        let candidate = if k == 1 {
            crate::text::owned(desired)
        } else {
            suffixed_name(desired, k)
        };
        assert(candidate@ == nth_name(desired@, k as nat));
        if !taken_contains(taken, &candidate) {
            return Ok((candidate, k > 1));
        }
        k += 1;
    }
    Err(crate::text::owned("Unable to find an available branch name."))
}

/// Where the marker that the setup script of `workspace_id` has run is kept:
/// `<data_dir>/worktree-setup/<workspace_id>.ran`.
pub fn worktree_setup_marker_path(data_dir: &str, workspace_id: &str) -> (r: String)
    ensures
        r@ == joined(joined(data_dir@, "worktree-setup"@), workspace_id@ + ".ran"@),
{
    let dir = join_path(data_dir, "worktree-setup");
    let file = string_of(&concat_chars(&chars_of(workspace_id), &chars_of(".ran")));
    join_path(&dir, &file)
}

/// A setup script that is blank counts as none.
pub fn normalize_setup_script(script: Option<String>) -> (r: Option<String>)
    ensures
        r == match script {
            Some(v) => if trim(v@).len() == 0 {
                None
            } else {
                Some(v)
            },
            None => None,
        },
{
    match script {
        Some(value) => {
            if trim_chars(&chars_of(&value)).len() == 0 {
                None
            } else {
                Some(value)
            }
        },
        None => None,
    }
}

/// Whether a git error says that a path is not a worktree, so that only the folder
/// is left to remove.
pub fn is_missing_worktree_error(error: &str) -> (r: bool)
    ensures
        r == contains_seq(error@, "is not a working tree"@),
{
    str_contains(error, "is not a working tree")
}

/// `path` with backslashes turned into slashes, as git prints paths.
pub fn normalize_git_path(path: &str) -> (r: String)
    ensures
        r@ == replace_seq(path@, '\\', '/'),
{
    string_of(&replace_chars(&chars_of(path), '\\', '/'))
}

/// Whether a directory is left out when the files of a workspace are listed.
pub fn should_skip_dir(name: &str) -> (r: bool)
    ensures
        r == (name@ == ".git"@ || name@ == "node_modules"@ || name@ == "dist"@ || name@
            == "target"@ || name@ == "release-artifacts"@),
{
    str_is(name, ".git") || str_is(name, "node_modules") || str_is(name, "dist") || str_is(
        name,
        "target",
    ) || str_is(name, "release-artifacts")
}

/// The strings `items` as owned strings.
fn owned_all(items: &Vec<&str>) -> (r: Vec<String>)
    ensures
        strs_view(r@) == items@.map_values(|s: &str| s@),
{
    let mut out: Vec<String> = Vec::new();
    let mut i: usize = 0;
    while i < items.len()
        invariant
            i <= items.len(),
            out@.len() == i,
            forall|j: int| 0 <= j < i ==> out@[j]@ == items@[j]@,
        decreases items.len() - i,
    {
        out.push(crate::text::owned(items[i]));
        i += 1;
    }
    assert(strs_view(out@) =~= items@.map_values(|s: &str| s@));
    out
}

/// Where the branch of a new worktree comes from.
pub enum BranchSource {
    /// The local branch exists: check it out.
    Local,
    /// A remote-tracking ref such as `origin/feature` has it: branch from that ref.
    Remote(String),
    /// Neither: create the branch at the current commit.
    Fresh,
}

/// The git arguments that add a worktree at `path` for `branch`.
pub fn worktree_add_args(path: &str, branch: &str, source: &BranchSource) -> (r: Vec<String>)
    ensures
        strs_view(r@) == match source {
            BranchSource::Local => seq!["worktree"@, "add"@, path@, branch@],
            BranchSource::Remote(remote_ref) => seq![
                "worktree"@,
                "add"@,
                "-b"@,
                branch@,
                path@,
                remote_ref@,
            ],
            BranchSource::Fresh => seq!["worktree"@, "add"@, "-b"@, branch@, path@],
        },
{
    let items = match source {
        BranchSource::Local => vec!["worktree", "add", path, branch],
        BranchSource::Remote(remote_ref) => vec![
            "worktree",
            "add",
            "-b",
            branch,
            path,
            remote_ref.as_str(),
        ],
        BranchSource::Fresh => vec!["worktree", "add", "-b", branch, path],
    };
    let r = owned_all(&items);
    proof {
        assert(strs_view(r@) =~= match source {
            BranchSource::Local => seq!["worktree"@, "add"@, path@, branch@],
            BranchSource::Remote(remote_ref) => seq![
                "worktree"@,
                "add"@,
                "-b"@,
                branch@,
                path@,
                remote_ref@,
            ],
            BranchSource::Fresh => seq!["worktree"@, "add"@, "-b"@, branch@, path@],
        });
    }
    r
}

/// The git arguments that rename branch `old` to `new`.
pub fn branch_rename_args(old: &str, new: &str) -> (r: Vec<String>)
    ensures
        strs_view(r@) == seq!["branch"@, "-m"@, old@, new@],
{
    let r = owned_all(&vec!["branch", "-m", old, new]);
    assert(strs_view(r@) =~= seq!["branch"@, "-m"@, old@, new@]);
    r
}

/// The git arguments that move the worktree at `from` to `to`.
pub fn worktree_move_args(from: &str, to: &str) -> (r: Vec<String>)
    ensures
        strs_view(r@) == seq!["worktree"@, "move"@, from@, to@],
{
    let r = owned_all(&vec!["worktree", "move", from, to]);
    assert(strs_view(r@) =~= seq!["worktree"@, "move"@, from@, to@]);
    r
}

/// The git arguments that remove the worktree at `path`, even with local changes.
pub fn worktree_remove_args(path: &str) -> (r: Vec<String>)
    ensures
        strs_view(r@) == seq!["worktree"@, "remove"@, "--force"@, path@],
{
    let r = owned_all(&vec!["worktree", "remove", "--force", path]);
    assert(strs_view(r@) =~= seq!["worktree"@, "remove"@, "--force"@, path@]);
    r
}


/// What the marker of a setup script that ran at `ran_at` (seconds since the Unix
/// epoch) holds.
pub fn setup_marker_contents(ran_at: u64) -> (r: String)
    ensures
        r@ == "ran_at="@ + decimal(ran_at as nat) + "\n"@,
{
    let head = concat_chars(&chars_of("ran_at="), &decimal_chars(ran_at));
    string_of(&concat_chars(&head, &chars_of("\n")))
}

/// The remotes in the order they are searched for a branch: `origin` first when it
/// is there, then the others in their order.
pub fn remote_search_order(remotes: &Vec<String>) -> (r: Vec<String>)
    ensures
        strs_view(r@) == if strs_view(remotes@).contains("origin"@) {
            seq!["origin"@] + crate::assoc::without(strs_view(remotes@), "origin"@)
        } else {
            crate::assoc::without(strs_view(remotes@), "origin"@)
        },
{
    let origin = crate::text::owned("origin");
    let mut rest = remotes.clone();
    assert(rest@ == remotes@);
    crate::assoc::strs_remove(&mut rest, &origin);
    if crate::assoc::strs_contains(remotes, &origin) {
        let mut out: Vec<String> = Vec::new();
        out.push(origin);
        let mut i: usize = 0;
        while i < rest.len()
            invariant
                i <= rest.len(),
                out@.len() == i + 1,
                out@[0]@ == "origin"@,
                forall|j: int| 0 <= j < i ==> out@[j + 1]@ == rest@[j]@,
            decreases rest.len() - i,
        {
            out.push(rest[i].clone());
            i += 1;
        }
        assert(strs_view(out@) =~= seq!["origin"@] + strs_view(rest@));
        out
    } else {
        rest
    }
}

/// The git commands that publish a renamed branch `new` on `remote` and drop `old`
/// there: when `old` was on the remote, push `new:new` and delete `old`; else push
/// `new`. Then track `remote/new`.
pub fn upstream_rename_commands(remote: &str, old: &str, new: &str, old_on_remote: bool) -> (r: Vec<
    Vec<String>,
>)
    ensures
        r@.map_values(|c: Vec<String>| strs_view(c@)) == if old_on_remote {
            seq![
                seq!["push"@, remote@, new@ + ":"@ + new@],
                seq!["push"@, remote@, ":"@ + old@],
                seq!["branch"@, "--set-upstream-to"@, remote@ + "/"@ + new@, new@],
            ]
        } else {
            seq![
                seq!["push"@, remote@, new@],
                seq!["branch"@, "--set-upstream-to"@, remote@ + "/"@ + new@, new@],
            ]
        },
{
    let refspec = string_of(&concat_chars(&concat_chars(&chars_of(new), &chars_of(":")), &chars_of(new)));
    let delete = string_of(&concat_chars(&chars_of(":"), &chars_of(old)));
    let upstream_ref = string_of(&concat_chars(&concat_chars(&chars_of(remote), &chars_of("/")), &chars_of(new)));
    let upstream = owned_all(&vec!["branch", "--set-upstream-to", upstream_ref.as_str(), new]);
    assert(strs_view(upstream@) =~= seq!["branch"@, "--set-upstream-to"@, remote@ + "/"@ + new@, new@]);
    let mut out: Vec<Vec<String>> = Vec::new();
    if old_on_remote {
        let push_new = owned_all(&vec!["push", remote, refspec.as_str()]);
        assert(strs_view(push_new@) =~= seq!["push"@, remote@, new@ + ":"@ + new@]);
        let drop_old = owned_all(&vec!["push", remote, delete.as_str()]);
        assert(strs_view(drop_old@) =~= seq!["push"@, remote@, ":"@ + old@]);
        out.push(push_new);
        out.push(drop_old);
        out.push(upstream);
        assert(out@.map_values(|c: Vec<String>| strs_view(c@)) =~= seq![
            seq!["push"@, remote@, new@ + ":"@ + new@],
            seq!["push"@, remote@, ":"@ + old@],
            seq!["branch"@, "--set-upstream-to"@, remote@ + "/"@ + new@, new@],
        ]);
    } else {
        let push_new = owned_all(&vec!["push", remote, new]);
        assert(strs_view(push_new@) =~= seq!["push"@, remote@, new@]);
        out.push(push_new);
        out.push(upstream);
        assert(out@.map_values(|c: Vec<String>| strs_view(c@)) =~= seq![
            seq!["push"@, remote@, new@],
            seq!["branch"@, "--set-upstream-to"@, remote@ + "/"@ + new@, new@],
        ]);
    }
    out
}

/// The branch names of an upstream rename, without surrounding white space.
/// Refused when either is empty, or when they are the same.
pub fn upstream_rename_names(old: &str, new: &str) -> (r: Result<(String, String), String>)
    ensures
        match r {
            Ok((o, n)) => o@ == trim(old@) && n@ == trim(new@) && o@.len() > 0 && n@.len() > 0
                && o@ != n@,
            Err(e) => if trim(old@).len() == 0 || trim(new@).len() == 0 {
                e@ == "Branch name is required."@
            } else {
                trim(old@) == trim(new@) && e@ == "Branch name is unchanged."@
            },
        },
{
    let o = crate::text::trimmed(old);
    let n = crate::text::trimmed(new);
    if o.len() == 0 || n.len() == 0 {
        return Err(crate::text::owned("Branch name is required."));
    }
    if chars_eq(&o, &n) {
        return Err(crate::text::owned("Branch name is unchanged."));
    }
    Ok((string_of(&o), string_of(&n)))
}

/// The most bytes of a workspace file handed to a client.
pub const MAX_WORKSPACE_FILE_BYTES: usize = 400000;

/// The first `limit` bytes of `bytes`, and whether any were cut off.
pub fn clip_bytes(bytes: Vec<u8>, limit: usize) -> (r: (Vec<u8>, bool))
    ensures
        r.1 == (bytes@.len() > limit),
        r.0@ == if bytes@.len() > limit {
            bytes@.take(limit as int)
        } else {
            bytes@
        },
{
    let mut out = bytes;
    if out.len() > limit {
        out.truncate(limit);
        (out, true)
    } else {
        (out, false)
    }
}

/// Puts `paths` in lexicographic order; each path stays as often as it was there.
pub fn sort_paths(paths: &mut Vec<String>)
    ensures
        forall|i: int, j: int|
            0 <= i < j < final(paths)@.len() ==> !crate::text::seq_less(
                final(paths)@[j]@,
                final(paths)@[i]@,
            ),
        final(paths)@.to_multiset() == old(paths)@.to_multiset(),
{
    let mut sorted: Vec<String> = Vec::new();
    let mut rest: Vec<String> = Vec::new();
    std::mem::swap(&mut rest, paths);
    let ghost all = rest@;
    proof {
        sorted@.to_multiset_ensures();
        assert(sorted@.to_multiset() =~= vstd::multiset::Multiset::empty());
        assert(sorted@.to_multiset().add(rest@.to_multiset()) =~= all.to_multiset());
    }
    while rest.len() > 0
        invariant
            forall|i: int, j: int|
                0 <= i < j < sorted@.len() ==> !crate::text::seq_less(sorted@[j]@, sorted@[i]@),
            sorted@.to_multiset().add(rest@.to_multiset()) == all.to_multiset(),
        decreases rest.len(),
    {
        let ghost before_rest = rest@;
        let x = rest.remove(0);
        assert(x == before_rest[0]);
        proof {
            before_rest.to_multiset_ensures();
        }
        assert(rest@ == before_rest.remove(0));
        let xc = chars_of(&x);
        let mut p: usize = 0;
        while p < sorted.len() && !crate::text::chars_less(&xc, &chars_of(&sorted[p]))
            invariant
                p <= sorted.len(),
                xc@ == x@,
                forall|i: int| 0 <= i < p ==> !crate::text::seq_less(x@, sorted@[i]@),
            decreases sorted.len() - p,
        {
            p += 1;
        }
        let ghost before = sorted@;
        sorted.insert(p, x);
        proof {
            sorted@.to_multiset_ensures();
            assert(sorted@.remove(p as int) =~= before);
            assert(sorted@[p as int] == x);
            assert(sorted@.contains(x));
            assert(before.to_multiset() =~= sorted@.to_multiset().remove(x));
            assert(sorted@.to_multiset() =~= before.to_multiset().insert(x));
            assert(before_rest.contains(x));
            assert(sorted@.to_multiset().add(rest@.to_multiset()) =~= all.to_multiset());
            assert forall|i: int, j: int| 0 <= i < j < sorted@.len() implies !crate::text::seq_less(
                sorted@[j]@,
                sorted@[i]@,
            ) by {
                if j < p {
                    assert(sorted@[i] == before[i] && sorted@[j] == before[j]);
                } else if j == p {
                    assert(sorted@[i] == before[i]);
                } else if i == p {
                    assert(sorted@[j] == before[j - 1]);
                    if p < before.len() && crate::text::seq_less(before[j - 1]@, x@) {
                        assert(crate::text::seq_less(x@, before[p as int]@));
                        if j - 1 == p {
                            crate::text::lemma_seq_less_transitive(x@, before[p as int]@, x@);
                            crate::text::lemma_seq_less_irreflexive(x@);
                        } else {
                            crate::text::lemma_seq_less_transitive(
                                before[j - 1]@,
                                x@,
                                before[p as int]@,
                            );
                            assert(!crate::text::seq_less(before[j - 1]@, before[p as int]@));
                        }
                    }
                } else if i < p {
                    assert(sorted@[i] == before[i] && sorted@[j] == before[j - 1]);
                } else {
                    assert(sorted@[i] == before[i - 1] && sorted@[j] == before[j - 1]);
                }
            }
        }
    }
    proof {
        rest@.to_multiset_ensures();
        assert(rest@.to_multiset() =~= vstd::multiset::Multiset::empty());
        assert(sorted@.to_multiset() =~= all.to_multiset());
    }
    *paths = sorted;
}

/// The lines of `s` (split at line feeds), each trimmed, blank ones dropped.
pub open spec fn nonblank_lines(s: Seq<char>) -> Seq<Seq<char>>
    decreases s.len(),
{
    if s.len() == 0 {
        Seq::empty()
    } else {
        let i = crate::text::next_index(s, '\n', 0);
        let line = trim(s.take(i));
        let rest = if i < s.len() {
            s.skip(i + 1)
        } else {
            Seq::empty()
        };
        if 0 <= i <= s.len() && rest.len() < s.len() {
            (if line.len() > 0 {
                seq![line]
            } else {
                Seq::empty()
            }) + nonblank_lines(rest)
        } else {
            Seq::empty()
        }
    }
}

/// The non-blank lines of a command's output, trimmed (see `nonblank_lines`).
pub fn output_lines(out: &str) -> (r: Vec<String>)
    ensures
        strs_view(r@) == nonblank_lines(out@),
{
    let chars = chars_of(out);
    let mut lines: Vec<String> = Vec::new();
    let mut start: usize = 0;
    assert(chars@.skip(0) == chars@);
    while start < chars.len()
        invariant
            start <= chars.len(),
            strs_view(lines@) + nonblank_lines(chars@.skip(start as int)) == nonblank_lines(chars@),
        decreases chars.len() - start,
    {
        let ghost rest = chars@.skip(start as int);
        let end = crate::text::find_from(&chars, '\n', start);
        proof {
            crate::text::lemma_next_index_bounds(chars@, '\n', start as int);
            lemma_next_index_shift(chars@, start as int, 0);
        }
        let line = crate::text::trim_chars(&crate::text::slice_chars(&chars, start, end));
        assert(chars@.subrange(start as int, end as int) == rest.take(end - start));
        let ghost before = lines@;
        if line.len() > 0 {
            lines.push(string_of(&line));
        }
        let next = if end < chars.len() {
            end + 1
        } else {
            end
        };
        proof {
            if end < chars.len() {
                assert(rest.skip(end - start + 1) =~= chars@.skip(next as int));
            } else {
                assert(chars@.skip(next as int) =~= Seq::<char>::empty());
            }
            assert(strs_view(lines@) =~= strs_view(before) + (if line@.len() > 0 {
                seq![line@]
            } else {
                Seq::empty()
            }));
        }
        start = next;
    }
    assert(chars@.skip(chars.len() as int) =~= Seq::<char>::empty());
    lines
}

/// Searching from `start + j` in `s` is searching from `j` in `s.skip(start)`.
proof fn lemma_next_index_shift(s: Seq<char>, start: int, j: int)
    requires
        0 <= start <= s.len(),
        0 <= j <= s.len() - start,
    ensures
        crate::text::next_index(s, '\n', start + j) - start == crate::text::next_index(
            s.skip(start),
            '\n',
            j,
        ),
    decreases s.len() - start - j,
{
    if j < s.len() - start && s[start + j] != '\n' {
        lemma_next_index_shift(s, start, j + 1);
    }
}
} // verus!
