//! Sequences of string-keyed entries in which each key occurs at most once,
//! and what looking a key up in them gives.

use vstd::prelude::*;

use crate::text::{str_equal, string_from};

verus! {

/// The value stored under `key` (the last entry with that key).
pub open spec fn find_keyed<V>(s: Seq<(String, V)>, key: Seq<char>) -> Option<V>
    decreases s.len(),
{
    if s.len() == 0 {
        None
    } else if s.last().0@ == key {
        Some(s.last().1)
    } else {
        find_keyed(s.drop_last(), key)
    }
}

/// No key occurs twice.
pub open spec fn keys_unique<V>(s: Seq<(String, V)>) -> bool {
    forall|a: int, b: int| 0 <= a < b < s.len() ==> s[a].0@ != s[b].0@
}

/// Position of the entry with key `key`, if any.
pub fn key_position<V>(v: &Vec<(String, V)>, key: &str) -> (r: Option<usize>)
    ensures
        match r {
            Some(k) => k < v@.len() && v@[k as int].0@ == key@,
            None => forall|k: int| 0 <= k < v@.len() ==> (#[trigger] v@[k]).0@ != key@,
        },
{
    let mut i: usize = 0;
    while i < v.len()
        invariant
            i <= v@.len(),
            forall|k: int| 0 <= k < i ==> (#[trigger] v@[k]).0@ != key@,
        decreases v@.len() - i,
    {
        if str_equal(v[i].0.as_str(), key) {
            return Some(i);
        }
        i = i + 1;
    }
    None
}

/// A key that no entry has is not found.
pub proof fn lemma_find_keyed_none<V>(s: Seq<(String, V)>, key: Seq<char>)
    requires
        forall|k: int| 0 <= k < s.len() ==> (#[trigger] s[k]).0@ != key,
    ensures
        find_keyed(s, key) is None,
    decreases s.len(),
{
    if s.len() > 0 {
        assert forall|k: int| 0 <= k < s.drop_last().len() implies (#[trigger] s.drop_last()[k]).0@ != key by {
            assert(s.drop_last()[k] == s[k]);
        }
        lemma_find_keyed_none(s.drop_last(), key);
    }
}

/// The key of any entry is found.
pub proof fn lemma_find_keyed_member<V>(s: Seq<(String, V)>, k: int)
    requires
        0 <= k < s.len(),
    ensures
        find_keyed(s, s[k].0@) is Some,
    decreases s.len(),
{
    if k < s.len() - 1 && s.last().0@ != s[k].0@ {
        assert(s.drop_last()[k] == s[k]);
        lemma_find_keyed_member(s.drop_last(), k);
    }
}

/// With unique keys, an entry's key finds that entry's value.
pub proof fn lemma_find_keyed_at<V>(s: Seq<(String, V)>, k: int)
    requires
        0 <= k < s.len(),
        keys_unique(s),
    ensures
        find_keyed(s, s[k].0@) == Some(s[k].1),
    decreases s.len(),
{
    if k < s.len() - 1 {
        assert(s.drop_last()[k] == s[k]);
        lemma_find_keyed_at(s.drop_last(), k);
    }
}

/// Replacing an entry by one with the same key changes no other key's value.
pub proof fn lemma_find_keyed_update<V>(s: Seq<(String, V)>, k: int, e: (String, V))
    requires
        0 <= k < s.len(),
        e.0@ == s[k].0@,
    ensures
        forall|p: Seq<char>| p != e.0@ ==> find_keyed(s.update(k, e), p) == find_keyed(s, p),
    decreases s.len(),
{
    let u = s.update(k, e);
    if k == s.len() - 1 {
        assert(u.drop_last() =~= s.drop_last());
        assert(u.last() == e);
    } else {
        assert(u.drop_last() =~= s.drop_last().update(k, e));
        assert(u.last() == s.last());
        lemma_find_keyed_update(s.drop_last(), k, e);
    }
    assert forall|p: Seq<char>| p != e.0@ implies find_keyed(u, p) == find_keyed(s, p) by {
        if u.last().0@ != p {
            assert(find_keyed(u, p) == find_keyed(u.drop_last(), p));
            assert(find_keyed(s, p) == find_keyed(s.drop_last(), p));
        }
    }
}

/// Removing the entry at `k` (keys unique) forgets its key and keeps every
/// other key's value.
pub proof fn lemma_find_keyed_remove<V>(s: Seq<(String, V)>, k: int)
    requires
        0 <= k < s.len(),
        keys_unique(s),
    ensures
        find_keyed(s.remove(k), s[k].0@) is None,
        keys_unique(s.remove(k)),
        forall|p: Seq<char>| p != s[k].0@ ==> find_keyed(s.remove(k), p) == find_keyed(s, p),
{
    let r = s.remove(k);
    let key = s[k].0@;
    assert forall|j: int| 0 <= j < r.len() implies (#[trigger] r[j]).0@ != key by {
        if j < k {
            assert(r[j] == s[j]);
        } else {
            assert(r[j] == s[j + 1]);
        }
    }
    lemma_find_keyed_none(r, key);
    assert forall|a: int, b: int| 0 <= a < b < r.len() implies r[a].0@ != r[b].0@ by {
        let a0 = if a < k { a } else { a + 1 };
        let b0 = if b < k { b } else { b + 1 };
        assert(r[a] == s[a0]);
        assert(r[b] == s[b0]);
    }
    assert forall|p: Seq<char>| p != key implies find_keyed(r, p) == find_keyed(s, p) by {
        lemma_find_keyed_remove_other(s, k, p);
    }
}

proof fn lemma_find_keyed_remove_other<V>(s: Seq<(String, V)>, k: int, p: Seq<char>)
    requires
        0 <= k < s.len(),
        p != s[k].0@,
    ensures
        find_keyed(s.remove(k), p) == find_keyed(s, p),
    decreases s.len(),
{
    let r = s.remove(k);
    if k == s.len() - 1 {
        assert(r =~= s.drop_last());
    } else {
        assert(r.drop_last() =~= s.drop_last().remove(k));
        assert(r.last() == s.last());
        assert(s.drop_last()[k] == s[k]);
        lemma_find_keyed_remove_other(s.drop_last(), k, p);
    }
}

/// Store `val` under `key`, replacing an earlier value for the same key.
pub fn keyed_insert<V>(v: &mut Vec<(String, V)>, key: &str, val: V)
    requires
        keys_unique(old(v)@),
    ensures
        keys_unique(final(v)@),
        find_keyed(final(v)@, key@) == Some(val),
        forall|p: Seq<char>| p != key@ ==> find_keyed(final(v)@, p) == find_keyed(old(v)@, p),
{
    let ghost before = v@;
    match key_position(v, key) {
        Some(k) => {
            let entry = (string_from(key), val);
            let ghost e = entry;
            v.set(k, entry);
            proof {
                lemma_find_keyed_update(before, k as int, e);
                assert(v@ =~= before.update(k as int, e));
                lemma_find_keyed_at(v@, k as int);
            }
        },
        None => {
            v.push((string_from(key), val));
            proof {
                assert(v@.drop_last() =~= before);
                assert forall|a: int, b: int| 0 <= a < b < v@.len() implies v@[a].0@ != v@[b].0@ by {
                    if b < before.len() {
                        assert(v@[a] == before[a] && v@[b] == before[b]);
                    } else {
                        assert(v@[a] == before[a]);
                    }
                }
            }
        },
    }
}

} // verus!
