//! Branch names for agent runs: a free-form title becomes a lower-case branch name
//! under a conventional prefix such as `feat/` or `fix/`.
use vstd::prelude::*;
use crate::text::{has_prefix, is_white, replace_seq, trim, trim_start_char};

verus! {

/// The lower-case form of `s`, as `str::to_lowercase` gives it.
pub uninterp spec fn lower_of(s: Seq<char>) -> Seq<char>;

/// Relies on `str::to_lowercase`: the lower-case form depends on the characters alone.
#[verifier::external_body]
fn to_lowercase(s: &str) -> (r: String)
    ensures
        r@ == lower_of(s@),
{
    s.to_lowercase()
}

/// A character kept as it is in a run branch name.
pub open spec fn is_kept(c: char) -> bool {
    ('a' <= c && c <= 'z') || ('A' <= c && c <= 'Z') || ('0' <= c && c <= '9') || c == '/'
}

/// A character that separates words: each run of them becomes one `-`.
pub open spec fn is_separator(c: char) -> bool {
    c == '-' || is_white(c) || c == '_'
}

/// `s` with kept characters kept, each run of separators turned into one `-`, and
/// other characters dropped; with whether the last character taken in was a dash.
pub open spec fn collapse(s: Seq<char>) -> (Seq<char>, bool)
    decreases s.len(),
{
    if s.len() == 0 {
        (Seq::empty(), false)
    } else {
        let prev = collapse(s.drop_last());
        let c = s.last();
        if is_kept(c) {
            (prev.0.push(c), false)
        } else if is_separator(c) {
            if prev.1 {
                (prev.0, true)
            } else {
                (prev.0.push('-'), true)
            }
        } else {
            prev
        }
    }
}

/// `s` without trailing dashes and slashes.
pub open spec fn trim_end_dash_slash(s: Seq<char>) -> Seq<char>
    decreases s.len(),
{
    if s.len() > 0 && (s.last() == '-' || s.last() == '/') {
        trim_end_dash_slash(s.drop_last())
    } else {
        s
    }
}

/// The prefixes that a run branch name may start with.
pub open spec fn run_prefixes() -> Seq<Seq<char>> {
    seq![
        "feat/"@,
        "fix/"@,
        "chore/"@,
        "test/"@,
        "docs/"@,
        "refactor/"@,
        "perf/"@,
        "build/"@,
        "ci/"@,
        "style/"@,
    ]
}

/// The first prefix, from index `i` on, whose dashed form (`feat-`) starts `s`.
pub open spec fn dashed_prefix_from(s: Seq<char>, i: int) -> Option<int>
    decreases 10 - i,
{
    if i < 0 || i >= 10 {
        None
    } else if has_prefix(s, replace_seq(run_prefixes()[i], '/', '-')) {
        Some(i)
    } else {
        dashed_prefix_from(s, i + 1)
    }
}

/// The branch name for an already lower-cased, trimmed title `lowered`: collapsed,
/// without trailing `-` and `/`; kept when it starts with an allowed prefix; a
/// dashed prefix (`fix-`) gets its slash back; anything else goes under `feat/`.
pub open spec fn run_branch_name(lowered: Seq<char>) -> Seq<char> {
    let cleaned = trim_end_dash_slash(collapse(lowered).0);
    if exists|i: int| 0 <= i < 10 && has_prefix(cleaned, #[trigger] run_prefixes()[i]) {
        cleaned
    } else {
        match dashed_prefix_from(cleaned, 0) {
            Some(i) => run_prefixes()[i] + cleaned.skip(run_prefixes()[i].len() as int),
            None => "feat/"@ + trim_start_char(cleaned, '/'),
        }
    }
}

/// The branch name for a title that is already trimmed and lower-cased (see
/// `run_branch_name`).
pub fn branch_name_from_lowered(lowered: &str) -> (r: String)
    ensures
        r@ == run_branch_name(lowered@),
{
    let chars = crate::text::chars_of(lowered);
    let mut out: Vec<char> = Vec::new();
    let mut last_dash = false;
    let mut i: usize = 0;
    while i < chars.len()
        invariant
            i <= chars.len(),
            (out@, last_dash) == collapse(chars@.take(i as int)),
        decreases chars.len() - i,
    {
        let c = chars[i];
        assert(chars@.take(i + 1).drop_last() == chars@.take(i as int));
        assert(chars@.take(i + 1).last() == c);
        if crate::text::is_ascii_alnum(c) || c == '/' {
            out.push(c);
            last_dash = false;
        } else if c == '-' || crate::text::is_white_char(c) || c == '_' {
            if !last_dash {
                out.push('-');
                last_dash = true;
            }
        }
        i += 1;
    }
    assert(chars@.take(chars.len() as int) == chars@);
    let mut end: usize = out.len();
    assert(out@.take(out.len() as int) == out@);
    while end > 0 && (out[end - 1] == '-' || out[end - 1] == '/')
        invariant
            end <= out.len(),
            trim_end_dash_slash(out@.take(end as int)) == trim_end_dash_slash(out@),
        decreases end,
    {
        assert(out@.take(end - 1) == out@.take(end as int).drop_last());
        end -= 1;
    }
    let cleaned = crate::text::slice_chars(&out, 0, end);
    let ghost want = trim_end_dash_slash(collapse(lowered@).0);
    assert(cleaned@ == want);
    let prefixes = vec![
        "feat/",
        "fix/",
        "chore/",
        "test/",
        "docs/",
        "refactor/",
        "perf/",
        "build/",
        "ci/",
        "style/",
    ];
    assert(prefixes@.len() == 10);
    assert forall|k: int| 0 <= k < 10 implies prefixes@[k]@ == #[trigger] run_prefixes()[k] by {}
    let mut k: usize = 0;
    while k < prefixes.len()
        invariant
            k <= prefixes.len() == 10,
            cleaned@ == want,
            want == trim_end_dash_slash(collapse(lowered@).0),
            forall|j: int| 0 <= j < 10 ==> prefixes@[j]@ == #[trigger] run_prefixes()[j],
            forall|j: int| 0 <= j < k ==> !has_prefix(cleaned@, #[trigger] run_prefixes()[j]),
        decreases prefixes.len() - k,
    {
        if crate::text::starts_with_chars(&cleaned, &crate::text::chars_of(prefixes[k])) {
            assert(has_prefix(cleaned@, run_prefixes()[k as int]));
            return crate::text::string_of(&cleaned);
        }
        k += 1;
    }
    let mut d: usize = 0;
    while d < prefixes.len()
        invariant
            d <= prefixes.len() == 10,
            cleaned@ == want,
            want == trim_end_dash_slash(collapse(lowered@).0),
            forall|j: int| 0 <= j < 10 ==> prefixes@[j]@ == #[trigger] run_prefixes()[j],
            !exists|j: int| 0 <= j < 10 && has_prefix(cleaned@, #[trigger] run_prefixes()[j]),
            dashed_prefix_from(cleaned@, 0) == dashed_prefix_from(cleaned@, d as int),
        decreases prefixes.len() - d,
    {
        let prefix = crate::text::chars_of(prefixes[d]);
        let dashed = crate::text::replace_chars(&prefix, '/', '-');
        if crate::text::starts_with_chars(&cleaned, &dashed) {
            let rest = crate::text::slice_chars(&cleaned, prefix.len(), cleaned.len());
            return crate::text::string_of(&crate::text::concat_chars(&prefix, &rest));
        }
        d += 1;
    }
    let mut start: usize = 0;
    assert(cleaned@.skip(0) == cleaned@);
    while start < cleaned.len() && cleaned[start] == '/'
        invariant
            start <= cleaned.len(),
            trim_start_char(cleaned@.skip(start as int), '/') == trim_start_char(cleaned@, '/'),
        decreases cleaned.len() - start,
    {
        assert(cleaned@.skip(start + 1) == cleaned@.skip(start as int).drop_first());
        start += 1;
    }
    let rest = crate::text::slice_chars(&cleaned, start, cleaned.len());
    assert(rest@ == trim_start_char(cleaned@, '/'));
    crate::text::string_of(&crate::text::concat_chars(&crate::text::chars_of("feat/"), &rest))
}

/// The branch name for a run titled `value`: trimmed, lower-cased, then as
/// `branch_name_from_lowered`.
pub fn sanitize_run_worktree_name(value: &str) -> (r: String)
    ensures
        r@ == run_branch_name(lower_of(trim(value@))),
{
    let trimmed = crate::text::string_of(&crate::text::trimmed(value));
    let lowered = to_lowercase(&trimmed);
    branch_name_from_lowered(&lowered)
}

} // verus!
