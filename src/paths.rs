//! Host-agnostic normalization of workspace roots and working directories, and the
//! containment rule that maps a working directory to the workspace that holds it.
use vstd::prelude::*;
use crate::text::{
    chars_eq, chars_less, chars_of, concat_chars, has_prefix, lemma_seq_less_irreflexive, lemma_seq_less_total, lemma_seq_less_transitive,
    ascii_lower, lower_chars, lower_seq, opt_view, replace_chars, replace_seq, seq_less, slice_chars,
    starts_with_chars, string_of, trim_end_char,
};

verus! {

/// The lower-cased prefix of a UNC long path.
pub open spec fn unc_long_prefix() -> Seq<char> {
    seq!['/', '/', '?', '/', 'u', 'n', 'c', '/']
}

/// The prefix of the Win32 file namespace.
pub open spec fn file_namespace_prefix() -> Seq<char> {
    seq!['/', '/', '?', '/']
}

/// The prefix of the Win32 device namespace.
pub open spec fn device_namespace_prefix() -> Seq<char> {
    seq!['/', '/', '.', '/']
}

/// A drive-letter path such as `c:/dev`.
pub open spec fn is_drive_path(s: Seq<char>) -> bool {
    &&& s.len() >= 3
    &&& (('a' <= s[0] && s[0] <= 'z') || ('A' <= s[0] && s[0] <= 'Z'))
    &&& s[1] == ':'
    &&& s[2] == '/'
}

/// `s` with its namespace prefix rewritten: a UNC long path becomes `//...`, a
/// namespace path loses its first four characters.
pub open spec fn strip_namespace(s: Seq<char>) -> Seq<char> {
    let lower = lower_seq(s);
    if has_prefix(lower, unc_long_prefix()) {
        seq!['/', '/'] + s.skip(8)
    } else if has_prefix(lower, file_namespace_prefix()) || has_prefix(
        lower,
        device_namespace_prefix(),
    ) {
        s.skip(4)
    } else {
        s
    }
}

/// The canonical form of a raw path: forward slashes, no trailing slash, no
/// namespace prefix, and lower case for drive-letter and UNC paths.
pub open spec fn normalized(raw: Seq<char>) -> Seq<char> {
    let slashed = trim_end_char(replace_seq(raw, '\\', '/'), '/');
    let stripped = strip_namespace(slashed);
    if slashed.len() == 0 || stripped.len() == 0 {
        Seq::empty()
    } else if is_drive_path(stripped) || has_prefix(stripped, seq!['/', '/']) {
        lower_seq(stripped)
    } else {
        stripped
    }
}

/// `root` holds `cwd`: the two are equal, or `cwd` continues `root` after a slash.
/// An empty root holds nothing.
pub open spec fn root_holds(root: Seq<char>, cwd: Seq<char>) -> bool {
    &&& root.len() > 0
    &&& (root == cwd || (cwd.len() > root.len() && has_prefix(cwd, root) && cwd[root.len() as int]
        == '/'))
}

/// Entry `i` of `roots` holds the normalized `cwd`.
pub open spec fn entry_holds(roots: Seq<(String, String)>, i: int, cwd: Seq<char>) -> bool {
    0 <= i < roots.len() && root_holds(roots[i].1@, cwd)
}

/// Entry `i` is at least as good a match as entry `j`: a longer root, or an equal
/// root length and an id that does not come after.
pub open spec fn entry_beats(roots: Seq<(String, String)>, i: int, j: int) -> bool {
    ||| roots[j].1@.len() < roots[i].1@.len()
    ||| (roots[j].1@.len() == roots[i].1@.len() && !seq_less(roots[j].0@, roots[i].0@))
}

/// Entry `i` is the best match for `cwd` among `roots`.
pub open spec fn is_best_entry(roots: Seq<(String, String)>, i: int, cwd: Seq<char>) -> bool {
    &&& entry_holds(roots, i, cwd)
    &&& forall|j: int| entry_holds(roots, j, cwd) ==> entry_beats(roots, i, j)
}

/// The workspace whose root holds `cwd` (normalized) is `result`, as
/// `resolve_workspace_for_cwd` decides it.
pub open spec fn resolves_to(
    roots: Seq<(String, String)>,
    cwd: Seq<char>,
    result: Option<Seq<char>>,
) -> bool {
    let c = normalized(cwd);
    match result {
        None => c.len() == 0 || forall|j: int| !entry_holds(roots, j, c),
        Some(id) => c.len() > 0 && exists|i: int| is_best_entry(roots, i, c) && roots[i].0@ == id,
    }
}

/// The workspace whose root holds the normalized `cwd`, as a function of its arguments.
pub open spec fn resolved(roots: Seq<(String, String)>, cwd: Seq<char>) -> Option<Seq<char>> {
    let c = normalized(cwd);
    if c.len() > 0 && exists|i: int| is_best_entry(roots, i, c) {
        Some(roots[choose|i: int| is_best_entry(roots, i, c)].0@)
    } else {
        None
    }
}

/// Two best entries for one working directory carry the same workspace id.
pub proof fn lemma_best_entry_unique(roots: Seq<(String, String)>, i: int, j: int, c: Seq<char>)
    requires
        is_best_entry(roots, i, c),
        is_best_entry(roots, j, c),
    ensures
        roots[i].0@ == roots[j].0@,
{
    assert(entry_beats(roots, i, j));
    assert(entry_beats(roots, j, i));
    if roots[i].0@ != roots[j].0@ {
        lemma_seq_less_total(roots[i].0@, roots[j].0@);
    }
}

/// What `resolve_workspace_for_cwd` decides is `resolved`.
pub proof fn lemma_resolves_to_resolved(
    roots: Seq<(String, String)>,
    cwd: Seq<char>,
    result: Option<Seq<char>>,
)
    requires
        resolves_to(roots, cwd, result),
    ensures
        result == resolved(roots, cwd),
{
    let c = normalized(cwd);
    if result is Some {
        let i = choose|i: int| is_best_entry(roots, i, c) && roots[i].0@ == result->0;
        let k = choose|k: int| is_best_entry(roots, k, c);
        lemma_best_entry_unique(roots, i, k, c);
    }
}

/// Among the first `n` entries, one that holds `c` beats every other that does,
/// whenever any holds it.
proof fn lemma_best_in_prefix(roots: Seq<(String, String)>, c: Seq<char>, n: int)
    requires
        0 <= n <= roots.len(),
        exists|j: int| 0 <= j < n && entry_holds(roots, j, c),
    ensures
        exists|i: int|
            0 <= i < n && entry_holds(roots, i, c) && forall|j: int|
                0 <= j < n && entry_holds(roots, j, c) ==> entry_beats(roots, i, j),
    decreases n,
{
    let last = n - 1;
    lemma_seq_less_irreflexive(roots[last].0@);
    if exists|j: int| 0 <= j < last && entry_holds(roots, j, c) {
        lemma_best_in_prefix(roots, c, last);
        let i = choose|i: int|
            0 <= i < last && entry_holds(roots, i, c) && forall|j: int|
                0 <= j < last && entry_holds(roots, j, c) ==> entry_beats(roots, i, j);
        lemma_seq_less_irreflexive(roots[i].0@);
        if entry_holds(roots, last, c) && !entry_beats(roots, i, last) {
            assert forall|j: int| 0 <= j < n && entry_holds(roots, j, c) implies entry_beats(
                roots,
                last,
                j,
            ) by {
                if j < last {
                    assert(entry_beats(roots, i, j));
                    if roots[j].1@.len() == roots[last].1@.len() && seq_less(
                        roots[j].0@,
                        roots[last].0@,
                    ) {
                        if roots[i].0@ != roots[last].0@ {
                            lemma_seq_less_total(roots[i].0@, roots[last].0@);
                        }
                        lemma_seq_less_transitive(roots[j].0@, roots[last].0@, roots[i].0@);
                    }
                }
            }
        } else {
            assert forall|j: int| 0 <= j < n && entry_holds(roots, j, c) implies entry_beats(
                roots,
                i,
                j,
            ) by {
                if j < last {
                    assert(entry_beats(roots, i, j));
                }
            }
        }
    } else {
        assert forall|j: int| 0 <= j < n && entry_holds(roots, j, c) implies entry_beats(
            roots,
            last,
            j,
        ) by {
            if j < last {
                assert(!entry_holds(roots, j, c));
            }
        }
    }
}

/// The workspace resolved for a working directory is that of a root that holds it
/// and is at least as long as every other such root; it is none exactly when the
/// directory normalizes to nothing or no root holds it.
pub proof fn lemma_resolution_is_longest_match(roots: Seq<(String, String)>, cwd: Seq<char>)
    ensures
        resolved(roots, cwd) is None <==> (normalized(cwd).len() == 0 || forall|j: int|
            !entry_holds(roots, j, normalized(cwd))),
        resolved(roots, cwd) matches Some(id) ==> exists|i: int|
            entry_holds(roots, i, normalized(cwd)) && roots[i].0@ == id && forall|j: int|
                entry_holds(roots, j, normalized(cwd)) ==> roots[j].1@.len() <= roots[i].1@.len(),
{
    let c = normalized(cwd);
    if c.len() > 0 && exists|j: int| entry_holds(roots, j, c) {
        let j = choose|j: int| entry_holds(roots, j, c);
        assert(0 <= j < roots.len());
        lemma_best_in_prefix(roots, c, roots.len() as int);
        let i = choose|i: int|
            0 <= i < roots.len() && entry_holds(roots, i, c) && forall|k: int|
                0 <= k < roots.len() && entry_holds(roots, k, c) ==> entry_beats(roots, i, k);
        assert(is_best_entry(roots, i, c));
    }
}

proof fn lemma_lower_char(c: char)
    ensures
        ascii_lower(ascii_lower(c)) == ascii_lower(c),
        (ascii_lower(c) == '/') == (c == '/'),
        (ascii_lower(c) == '\\') == (c == '\\'),
        (ascii_lower(c) == ':') == (c == ':'),
        (('a' <= ascii_lower(c) && ascii_lower(c) <= 'z') || ('A' <= ascii_lower(c) && ascii_lower(c)
            <= 'Z')) == (('a' <= c && c <= 'z') || ('A' <= c && c <= 'Z')),
{
}

proof fn lemma_trim_end_char(s: Seq<char>, c: char)
    ensures
        trim_end_char(s, c).len() <= s.len(),
        trim_end_char(s, c) == s.take(trim_end_char(s, c).len() as int),
        trim_end_char(s, c).len() > 0 ==> trim_end_char(s, c).last() != c,
    decreases s.len(),
{
    if s.len() > 0 && s.last() == c {
        lemma_trim_end_char(s.drop_last(), c);
        let t = trim_end_char(s.drop_last(), c);
        assert(s.drop_last().take(t.len() as int) == s.take(t.len() as int));
    } else {
        assert(s.take(s.len() as int) == s);
    }
}

/// No backslash in `s`.
pub open spec fn no_backslash(s: Seq<char>) -> bool {
    forall|i: int| 0 <= i < s.len() ==> s[i] != '\\'
}

/// Normalizing twice gives what normalizing once gives, for every path whose
/// normalized form does not itself start, in any case, with a namespace prefix
/// (`//?/` or `//./`).
pub proof fn lemma_normalize_idempotent(raw: Seq<char>)
    requires
        !has_prefix(lower_seq(normalized(raw)), file_namespace_prefix()),
        !has_prefix(lower_seq(normalized(raw)), device_namespace_prefix()),
    ensures
        normalized(normalized(raw)) == normalized(raw),
{
    let n = normalized(raw);
    let replaced = replace_seq(raw, '\\', '/');
    let slashed = trim_end_char(replaced, '/');
    let stripped = strip_namespace(slashed);
    lemma_trim_end_char(replaced, '/');
    assert(no_backslash(slashed)) by {
        assert forall|i: int| 0 <= i < slashed.len() implies slashed[i] != '\\' by {
            assert(slashed[i] == replaced[i]);
        }
    }
    let lower = lower_seq(slashed);
    assert forall|i: int| 0 <= i < slashed.len() implies (lower[i] == '/') == (slashed[i] == '/') by {
        lemma_lower_char(slashed[i]);
    }
    if slashed.len() == 0 || stripped.len() == 0 {
        assert(n == Seq::<char>::empty());
        assert(replace_seq(n, '\\', '/') =~= n);
        assert(trim_end_char(n, '/') == n);
    } else {
        assert(slashed.last() != '/');
        // The stripped form has no backslash and does not end with a slash.
        if has_prefix(lower, unc_long_prefix()) {
            assert(lower[7] == unc_long_prefix()[7]);
            assert(slashed[7] == '/');
            assert(slashed.len() > 8);
            assert(stripped =~= seq!['/', '/'] + slashed.skip(8));
            assert(stripped.last() == slashed.last());
        } else if has_prefix(lower, file_namespace_prefix()) || has_prefix(
            lower,
            device_namespace_prefix(),
        ) {
            assert(lower[3] == '/');
            assert(slashed[3] == '/');
            assert(slashed.len() > 4);
            assert(stripped =~= slashed.skip(4));
            assert(stripped.last() == slashed.last());
        }
        assert(stripped.last() != '/');
        assert(no_backslash(stripped)) by {
            assert forall|i: int| 0 <= i < stripped.len() implies stripped[i] != '\\' by {
                if has_prefix(lower, unc_long_prefix()) {
                    if i >= 2 {
                        assert(stripped[i] == slashed[i + 6]);
                    }
                } else if has_prefix(lower, file_namespace_prefix()) || has_prefix(
                    lower,
                    device_namespace_prefix(),
                ) {
                    assert(stripped[i] == slashed[i + 4]);
                }
            }
        }
        let upper_case_kept = !(is_drive_path(stripped) || has_prefix(stripped, seq!['/', '/']));
        assert forall|i: int| 0 <= i < stripped.len() implies n[i] != '\\' && (n[i] == '/') == (
        stripped[i] == '/') by {
            lemma_lower_char(stripped[i]);
        }
        assert(n.len() == stripped.len());
        assert(n.last() != '/');
        assert(replace_seq(n, '\\', '/') =~= n);
        assert(trim_end_char(n, '/') == n);
        let lower_n = lower_seq(n);
        assert(!has_prefix(lower_n, unc_long_prefix())) by {
            if has_prefix(lower_n, unc_long_prefix()) {
                assert(lower_n.take(4) =~= lower_n.take(8).take(4));
                assert(unc_long_prefix().take(4) =~= file_namespace_prefix());
            }
        }
        assert(strip_namespace(n) == n);
        if upper_case_kept {
            assert(n == stripped);
        } else {
            assert(n == lower_seq(stripped));
            assert(lower_seq(n) =~= n) by {
                assert forall|i: int| 0 <= i < n.len() implies lower_seq(n)[i] == n[i] by {
                    lemma_lower_char(stripped[i]);
                }
            }
            if is_drive_path(stripped) {
                lemma_lower_char(stripped[0]);
                lemma_lower_char(stripped[1]);
                lemma_lower_char(stripped[2]);
                assert(is_drive_path(n));
            } else {
                assert(n.take(2) =~= seq!['/', '/']) by {
                    assert(stripped.take(2) == seq!['/', '/']);
                    lemma_lower_char(stripped[0]);
                    lemma_lower_char(stripped[1]);
                }
            }
        }
        assert(upper_case_kept ==> !(is_drive_path(n) || has_prefix(n, seq!['/', '/'])));
    }
}

/// Whether the lower-cased `s` starts with `p`.
fn lower_starts_with(s: &Vec<char>, p: &Vec<char>) -> (r: bool)
    ensures
        r == has_prefix(lower_seq(s@), p@),
{
    let lower = lower_chars(s);
    starts_with_chars(&lower, p)
}

/// `v` without trailing slashes.
fn trim_end_slashes(v: &Vec<char>) -> (r: Vec<char>)
    ensures
        r@ == trim_end_char(v@, '/'),
{
    let mut end: usize = v.len();
    assert(v@.take(v.len() as int) == v@);
    while end > 0 && v[end - 1] == '/'
        invariant
            end <= v.len(),
            trim_end_char(v@.take(end as int), '/') == trim_end_char(v@, '/'),
        decreases end,
    {
        assert(v@.take(end - 1) == v@.take(end as int).drop_last());
        end -= 1;
    }
    slice_chars(v, 0, end)
}

/// Canonicalizes a raw filesystem path so that roots and working directories
/// compare across hosts (see `normalized`).
pub fn normalize_root_path(value: &str) -> (r: String)
    ensures
        r@ == normalized(value@),
{
    let raw = chars_of(value);
    let slashed_all = replace_chars(&raw, '\\', '/');
    let slashed = trim_end_slashes(&slashed_all);
    if slashed.len() == 0 {
        return string_of(&Vec::new());
    }
    let unc = vec!['/', '/', '?', '/', 'u', 'n', 'c', '/'];
    let file_ns = vec!['/', '/', '?', '/'];
    let device_ns = vec!['/', '/', '.', '/'];
    let stripped = if lower_starts_with(&slashed, &unc) {
        let rest = slice_chars(&slashed, 8, slashed.len());
        concat_chars(&vec!['/', '/'], &rest)
    } else if lower_starts_with(&slashed, &file_ns) || lower_starts_with(&slashed, &device_ns) {
        slice_chars(&slashed, 4, slashed.len())
    } else {
        slashed
    };
    if stripped.len() == 0 {
        return string_of(&Vec::new());
    }
    let is_drive = stripped.len() >= 3 && (('a' <= stripped[0] && stripped[0] <= 'z') || (
    'A' <= stripped[0] && stripped[0] <= 'Z')) && stripped[1] == ':' && stripped[2] == '/';
    let double_slash = vec!['/', '/'];
    if is_drive || starts_with_chars(&stripped, &double_slash) {
        string_of(&lower_chars(&stripped))
    } else {
        string_of(&stripped)
    }
}

/// Whether `root` holds `cwd` (see `root_holds`).
fn root_holds_exec(root: &Vec<char>, cwd: &Vec<char>) -> (r: bool)
    ensures
        r == root_holds(root@, cwd@),
{
    if root.len() == 0 {
        return false;
    }
    if chars_eq(root, cwd) {
        return true;
    }
    cwd.len() > root.len() && starts_with_chars(cwd, root) && cwd[root.len()] == '/'
}

/// The workspace whose root holds `cwd`: the longest matching root wins, and
/// among equal roots the least workspace id. `workspace_roots` pairs each
/// workspace id with its normalized root; `None` when no root holds `cwd`.
pub fn resolve_workspace_for_cwd(cwd: &str, workspace_roots: &Vec<(String, String)>) -> (r:
    Option<String>)
    ensures
        resolves_to(workspace_roots@, cwd@, opt_view(r)),
        opt_view(r) == resolved(workspace_roots@, cwd@),
{
    let normalized_cwd = chars_of(&normalize_root_path(cwd));
    if normalized_cwd.len() == 0 {
        proof {
            lemma_resolves_to_resolved(workspace_roots@, cwd@, None);
        }
        return None;
    }
    let ghost c = normalized_cwd@;
    let mut best: Option<usize> = None;
    let mut i: usize = 0;
    while i < workspace_roots.len()
        invariant
            i <= workspace_roots.len(),
            c == normalized(cwd@),
            c.len() > 0,
            normalized_cwd@ == c,
            best is None ==> forall|j: int| 0 <= j < i ==> !entry_holds(workspace_roots@, j, c),
            best is Some ==> best->0 < i && entry_holds(workspace_roots@, best->0 as int, c),
            best is Some ==> forall|j: int|
                0 <= j < i && entry_holds(workspace_roots@, j, c) ==> entry_beats(
                    workspace_roots@,
                    best->0 as int,
                    j,
                ),
        decreases workspace_roots.len() - i,
    {
        let root = chars_of(&workspace_roots[i].1);
        proof {
            lemma_seq_less_irreflexive(workspace_roots@[i as int].0@);
        }
        if root_holds_exec(&root, &normalized_cwd) {
            match best {
                None => {
                    best = Some(i);
                },
                Some(b) => {
                    let best_root_len = chars_of(&workspace_roots[b].1).len();
                    let better = if root.len() != best_root_len {
                        root.len() > best_root_len
                    } else {
                        chars_less(
                            &chars_of(&workspace_roots[i].0),
                            &chars_of(&workspace_roots[b].0),
                        )
                    };
                    if better {
                        proof {
                            assert forall|j: int|
                                0 <= j < i && entry_holds(workspace_roots@, j, c) implies entry_beats(
                                workspace_roots@,
                                i as int,
                                j,
                            ) by {
                                if root.len() == best_root_len && seq_less(
                                    workspace_roots@[j].0@,
                                    workspace_roots@[i as int].0@,
                                ) {
                                    lemma_seq_less_transitive(
                                        workspace_roots@[j].0@,
                                        workspace_roots@[i as int].0@,
                                        workspace_roots@[b as int].0@,
                                    );
                                }
                            }
                        }
                        best = Some(i);
                    } else {
                        assert(entry_beats(workspace_roots@, b as int, i as int));
                    }
                },
            }
        } else {
            assert(!entry_holds(workspace_roots@, i as int, c));
        }
        i += 1;
    }
    match best {
        None => {
            proof {
                lemma_resolves_to_resolved(workspace_roots@, cwd@, None);
            }
            None
        },
        Some(b) => {
            let id = workspace_roots[b].0.clone();
            assert(is_best_entry(workspace_roots@, b as int, c));
            proof {
                lemma_resolves_to_resolved(workspace_roots@, cwd@, Some(id@));
            }
            Some(id)
        },
    }
}

} // verus!
