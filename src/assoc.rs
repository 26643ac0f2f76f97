//! Small association lists and string sets kept in vectors. A lookup reads the
//! last entry for a key; inserting first drops the key's earlier entries, so each
//! key stands at most once.
use vstd::prelude::*;

verus! {

/// The value that `s` gives to key `k`: that of its last entry for `k`.
pub open spec fn str_lookup(s: Seq<(String, String)>, k: Seq<char>) -> Option<Seq<char>>
    decreases s.len(),
{
    if s.len() == 0 {
        None
    } else if s.last().0@ == k {
        Some(s.last().1@)
    } else {
        str_lookup(s.drop_last(), k)
    }
}

/// The views of the strings in `s`.
pub open spec fn strs_view(s: Seq<String>) -> Seq<Seq<char>> {
    s.map_values(|x: String| x@)
}

/// `s` without the elements equal to `k`.
pub open spec fn without(s: Seq<Seq<char>>, k: Seq<char>) -> Seq<Seq<char>>
    decreases s.len(),
{
    if s.len() == 0 {
        s
    } else if s.last() == k {
        without(s.drop_last(), k)
    } else {
        without(s.drop_last(), k).push(s.last())
    }
}

/// The value of `k` in `v`.
pub fn str_get(v: &Vec<(String, String)>, k: &String) -> (r: Option<String>)
    ensures
        match r {
            Some(x) => str_lookup(v@, k@) == Some(x@),
            None => str_lookup(v@, k@) is None,
        },
{
    let mut i: usize = v.len();
    assert(v@.take(v.len() as int) == v@);
    while i > 0
        invariant
            i <= v.len(),
            str_lookup(v@.take(i as int), k@) == str_lookup(v@, k@),
        decreases i,
    {
        assert(v@.take(i as int).drop_last() == v@.take(i - 1));
        if v[i - 1].0 == *k {
            return Some(v[i - 1].1.clone());
        }
        i -= 1;
    }
    None
}

/// Drops every entry for key `k`.
pub fn str_remove(v: &mut Vec<(String, String)>, k: &String)
    ensures
        forall|x: Seq<char>|
            #![trigger str_lookup(final(v)@, x)]
            str_lookup(final(v)@, x) == if x == k@ {
                None
            } else {
                str_lookup(old(v)@, x)
            },
{
    let mut kept: Vec<(String, String)> = Vec::new();
    let mut i: usize = 0;
    while i < v.len()
        invariant
            i <= v.len(),
            forall|x: Seq<char>|
                #![trigger str_lookup(kept@, x)]
                str_lookup(kept@, x) == if x == k@ {
                    None
                } else {
                    str_lookup(v@.take(i as int), x)
                },
        decreases v.len() - i,
    {
        let ghost before = kept@;
        let ghost next = v@.take(i + 1);
        assert(next.drop_last() == v@.take(i as int));
        assert(next.last() == v@[i as int]);
        if v[i].0 != *k {
            let entry = (v[i].0.clone(), v[i].1.clone());
            kept.push(entry);
            assert(kept@.drop_last() == before);
        }
        assert forall|x: Seq<char>|
            #![trigger str_lookup(kept@, x)]
            str_lookup(kept@, x) == if x == k@ {
                None
            } else {
                str_lookup(next, x)
            } by {
            assert(str_lookup(next, x) == if next.last().0@ == x {
                Some(next.last().1@)
            } else {
                str_lookup(v@.take(i as int), x)
            });
            if kept@.len() > before.len() {
                assert(str_lookup(kept@, x) == if kept@.last().0@ == x {
                    Some(kept@.last().1@)
                } else {
                    str_lookup(before, x)
                });
            }
        }
        i += 1;
    }
    assert(v@.take(v.len() as int) == v@);
    *v = kept;
}

/// Gives key `k` the value `val`.
pub fn str_insert(v: &mut Vec<(String, String)>, k: String, val: String)
    ensures
        forall|x: Seq<char>|
            #![trigger str_lookup(final(v)@, x)]
            str_lookup(final(v)@, x) == if x == k@ {
                Some(val@)
            } else {
                str_lookup(old(v)@, x)
            },
{
    str_remove(v, &k);
    let ghost before = v@;
    v.push((k, val));
    assert(v@.drop_last() == before);
    assert forall|x: Seq<char>|
        #![trigger str_lookup(v@, x)]
        str_lookup(v@, x) == if x == k@ {
            Some(val@)
        } else {
            str_lookup(old(v)@, x)
        } by {
        assert(str_lookup(v@, x) == if v@.last().0@ == x {
            Some(v@.last().1@)
        } else {
            str_lookup(before, x)
        });
    }
}

/// Whether `s` holds `k`.
pub fn strs_contains(s: &Vec<String>, k: &String) -> (r: bool)
    ensures
        r == strs_view(s@).contains(k@),
{
    let mut i: usize = 0;
    while i < s.len()
        invariant
            i <= s.len(),
            forall|j: int| 0 <= j < i ==> s@[j]@ != k@,
        decreases s.len() - i,
    {
        if s[i] == *k {
            assert(strs_view(s@)[i as int] == k@);
            return true;
        }
        i += 1;
    }
    false
}

/// Adds `k` at the end of `s` when `s` does not hold it.
pub fn strs_add(s: &mut Vec<String>, k: String)
    ensures
        strs_view(final(s)@) == if strs_view(old(s)@).contains(k@) {
            strs_view(old(s)@)
        } else {
            strs_view(old(s)@).push(k@)
        },
{
    if !strs_contains(s, &k) {
        s.push(k);
        assert(strs_view(s@) =~= strs_view(old(s)@).push(k@));
    }
}

/// Drops every copy of `k` from `s`, keeping the order of the rest.
pub fn strs_remove(s: &mut Vec<String>, k: &String)
    ensures
        strs_view(final(s)@) == without(strs_view(old(s)@), k@),
{
    let mut kept: Vec<String> = Vec::new();
    let mut i: usize = 0;
    while i < s.len()
        invariant
            i <= s.len(),
            strs_view(kept@) == without(strs_view(s@.take(i as int)), k@),
        decreases s.len() - i,
    {
        assert(strs_view(s@.take(i + 1)).drop_last() == strs_view(s@.take(i as int)));
        if s[i] != *k {
            let ghost before = kept@;
            kept.push(s[i].clone());
            assert(strs_view(kept@) =~= strs_view(before).push(s@[i as int]@));
        }
        i += 1;
    }
    assert(s@.take(s.len() as int) == s@);
    *s = kept;
}

} // verus!
