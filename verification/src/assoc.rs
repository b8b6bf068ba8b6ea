//! Association lists keyed by strings: the model behind the matcher's cache
//! and the tracker's session-to-window map. Lookup takes the first entry with
//! the key; the well-formedness predicate (distinct keys) makes updates and
//! removals behave like a map.

use vstd::prelude::*;
use crate::text::str_eq;

verus! {

/// The value stored under `k`: the first entry whose key reads `k`.
pub open spec fn assoc_get<V>(s: Seq<(String, V)>, k: Seq<char>) -> Option<V>
    decreases s.len(),
{
    if s.len() == 0 {
        None
    } else if s[0].0@ == k {
        Some(s[0].1)
    } else {
        assoc_get(s.drop_first(), k)
    }
}

/// All keys are distinct.
pub open spec fn assoc_wf<V>(s: Seq<(String, V)>) -> bool {
    forall|i: int, j: int| 0 <= i < j < s.len() ==> (#[trigger] s[i]).0@ != (#[trigger] s[j]).0@
}

pub proof fn lemma_wf_drop_first<V>(s: Seq<(String, V)>)
    requires
        assoc_wf(s),
        s.len() > 0,
    ensures
        assoc_wf(s.drop_first()),
{
    let t = s.drop_first();
    assert forall|i: int, j: int| 0 <= i < j < t.len() implies (#[trigger] t[i]).0@
        != (#[trigger] t[j]).0@ by {
        assert(t[i] == s[i + 1]);
        assert(t[j] == s[j + 1]);
    }
}

/// `assoc_get` is `None` exactly when no entry has the key.
pub proof fn lemma_assoc_get_none<V>(s: Seq<(String, V)>, k: Seq<char>)
    ensures
        (assoc_get(s, k) is None) <==> (forall|j: int| 0 <= j < s.len() ==> (#[trigger] s[j]).0@
            != k),
    decreases s.len(),
{
    if s.len() == 0 {
    } else if s[0].0@ == k {
        assert(s[0].0@ == k);
    } else {
        lemma_assoc_get_none(s.drop_first(), k);
        let t = s.drop_first();
        if assoc_get(s, k) is None {
            assert forall|j: int| 0 <= j < s.len() implies (#[trigger] s[j]).0@ != k by {
                if j > 0 {
                    assert(t[j - 1] == s[j]);
                }
            }
        } else {
            let j = choose|j: int| 0 <= j < t.len() && (#[trigger] t[j]).0@ == k;
            assert(s[j + 1] == t[j]);
        }
    }
}

/// Updating the entry at `i` without changing its key: the key now maps to
/// the new value, every other key is untouched, and distinctness is kept.
pub proof fn lemma_assoc_update<V>(s: Seq<(String, V)>, i: int, p: (String, V))
    requires
        assoc_wf(s),
        0 <= i < s.len(),
        p.0@ == s[i].0@,
    ensures
        assoc_wf(s.update(i, p)),
        assoc_get(s.update(i, p), p.0@) == Some(p.1),
        forall|k: Seq<char>| k != p.0@ ==> assoc_get(s.update(i, p), k) == assoc_get(s, k),
    decreases s.len(),
{
    let t = s.update(i, p);
    assert forall|x: int, y: int| 0 <= x < y < t.len() implies (#[trigger] t[x]).0@
        != (#[trigger] t[y]).0@ by {
        assert(t[x].0@ == s[x].0@);
        assert(t[y].0@ == s[y].0@);
        assert(s[x].0@ != s[y].0@);
    }
    if i == 0 {
        assert(t[0] == p);
        assert(t.drop_first() =~= s.drop_first());
        assert(assoc_get(t, p.0@) == Some(p.1));
        assert forall|k: Seq<char>| k != p.0@ implies assoc_get(t, k) == assoc_get(s, k) by {
            assert(t[0].0@ == s[0].0@);
        }
    } else {
        assert(t[0] == s[0]);
        assert(t.drop_first() =~= s.drop_first().update(i - 1, p));
        assert(s.drop_first()[i - 1] == s[i]);
        lemma_wf_drop_first(s);
        lemma_assoc_update(s.drop_first(), i - 1, p);
        assert(s[0].0@ != s[i].0@);
        assert(assoc_get(t, p.0@) == assoc_get(t.drop_first(), p.0@));
        assert(assoc_get(t, p.0@) == Some(p.1));
        assert forall|k: Seq<char>| k != p.0@ implies assoc_get(t, k) == assoc_get(s, k) by {
            if s[0].0@ == k {
            } else {
                assert(assoc_get(t, k) == assoc_get(t.drop_first(), k));
                assert(assoc_get(s, k) == assoc_get(s.drop_first(), k));
            }
        }
    }
}

/// Appending a fresh key: it maps to the new value, every other key is
/// untouched, and distinctness is kept.
pub proof fn lemma_assoc_push<V>(s: Seq<(String, V)>, p: (String, V))
    requires
        assoc_wf(s),
        assoc_get(s, p.0@) is None,
    ensures
        assoc_wf(s.push(p)),
        assoc_get(s.push(p), p.0@) == Some(p.1),
        forall|k: Seq<char>| k != p.0@ ==> assoc_get(s.push(p), k) == assoc_get(s, k),
    decreases s.len(),
{
    lemma_assoc_get_none(s, p.0@);
    let t = s.push(p);
    assert forall|x: int, y: int| 0 <= x < y < t.len() implies (#[trigger] t[x]).0@
        != (#[trigger] t[y]).0@ by {
        if y < s.len() {
            assert(t[x] == s[x]);
            assert(t[y] == s[y]);
        } else {
            assert(t[y] == p);
            assert(t[x] == s[x]);
            assert(s[x].0@ != p.0@);
        }
    }
    if s.len() == 0 {
        assert(t[0] == p);
        assert(t.drop_first() =~= Seq::<(String, V)>::empty());
        assert(assoc_get(t, p.0@) == Some(p.1));
        assert forall|k: Seq<char>| k != p.0@ implies assoc_get(t, k) == assoc_get(s, k) by {
            assert(assoc_get(t, k) == assoc_get(t.drop_first(), k));
        }
    } else {
        assert(t[0] == s[0]);
        assert(t.drop_first() =~= s.drop_first().push(p));
        lemma_wf_drop_first(s);
        assert(s[0].0@ != p.0@);
        lemma_assoc_push(s.drop_first(), p);
        assert(assoc_get(t, p.0@) == assoc_get(t.drop_first(), p.0@));
        assert forall|k: Seq<char>| k != p.0@ implies assoc_get(t, k) == assoc_get(s, k) by {
            if s[0].0@ != k {
                assert(assoc_get(t, k) == assoc_get(t.drop_first(), k));
                assert(assoc_get(s, k) == assoc_get(s.drop_first(), k));
            }
        }
    }
}

/// Removing the entry at `i`: its key no longer maps to anything, every other
/// key is untouched, and distinctness is kept.
pub proof fn lemma_assoc_remove<V>(s: Seq<(String, V)>, i: int)
    requires
        assoc_wf(s),
        0 <= i < s.len(),
    ensures
        assoc_wf(s.remove(i)),
        assoc_get(s.remove(i), s[i].0@) is None,
        forall|k: Seq<char>| k != s[i].0@ ==> assoc_get(s.remove(i), k) == assoc_get(s, k),
    decreases s.len(),
{
    let t = s.remove(i);
    assert forall|x: int, y: int| 0 <= x < y < t.len() implies (#[trigger] t[x]).0@
        != (#[trigger] t[y]).0@ by {
        let xs: int = if x < i {
            x
        } else {
            x + 1
        };
        let ys: int = if y < i {
            y
        } else {
            y + 1
        };
        assert(t[x] == s[xs]);
        assert(t[y] == s[ys]);
        assert(s[xs].0@ != s[ys].0@);
    }
    if i == 0 {
        assert(t =~= s.drop_first());
        lemma_assoc_get_none(t, s[0].0@);
        assert forall|j: int| 0 <= j < t.len() implies (#[trigger] t[j]).0@ != s[0].0@ by {
            assert(t[j] == s[j + 1]);
            assert(s[0].0@ != s[j + 1].0@);
        }
    } else {
        assert(t[0] == s[0]);
        assert(t.drop_first() =~= s.drop_first().remove(i - 1));
        assert(s.drop_first()[i - 1] == s[i]);
        lemma_wf_drop_first(s);
        lemma_assoc_remove(s.drop_first(), i - 1);
        assert(s[0].0@ != s[i].0@);
        assert(assoc_get(t, s[i].0@) == assoc_get(t.drop_first(), s[i].0@));
        assert forall|k: Seq<char>| k != s[i].0@ implies assoc_get(t, k) == assoc_get(s, k) by {
            if s[0].0@ != k {
                assert(assoc_get(t, k) == assoc_get(t.drop_first(), k));
                assert(assoc_get(s, k) == assoc_get(s.drop_first(), k));
            }
        }
    }
}


/// The index of the entry with the given key, if any.
pub fn assoc_find_index<V>(v: &Vec<(String, V)>, key: &str) -> (r: Option<usize>)
    ensures
        match r {
            Some(i) => i < v@.len() && v@[i as int].0@ == key@ && assoc_get(v@, key@) == Some(
                v@[i as int].1,
            ),
            None => assoc_get(v@, key@) is None,
        },
{
    let n = v.len();
    let mut i: usize = 0;
    proof {
        assert(v@.subrange(0, n as int) =~= v@);
    }
    while i < n
        invariant
            n == v@.len(),
            0 <= i <= n,
            assoc_get(v@, key@) == assoc_get(v@.subrange(i as int, n as int), key@),
        decreases n - i,
    {
        if str_eq(v[i].0.as_str(), key) {
            proof {
                let rest = v@.subrange(i as int, n as int);
                assert(rest[0] == v@[i as int]);
            }
            return Some(i);
        }
        proof {
            let rest = v@.subrange(i as int, n as int);
            assert(rest.drop_first() =~= v@.subrange(i + 1, n as int));
        }
        i = i + 1;
    }
    proof {
        assert(v@.subrange(n as int, n as int) =~= Seq::<(String, V)>::empty());
    }
    None
}

/// Store `val` under `key`, overwriting any entry with that key.
pub fn assoc_set<V>(v: &mut Vec<(String, V)>, key: &str, val: V)
    requires
        assoc_wf(old(v)@),
    ensures
        assoc_wf(final(v)@),
        assoc_get(final(v)@, key@) == Some(val),
        forall|k: Seq<char>| k != key@ ==> assoc_get(final(v)@, k) == assoc_get(old(v)@, k),
{
    let n = v.len();
    let mut i: usize = 0;
    while i < n
        invariant
            assoc_wf(v@),
            v@ == old(v)@,
            n == v@.len(),
            0 <= i <= n,
            forall|j: int| 0 <= j < i ==> (#[trigger] v@[j]).0@ != key@,
        decreases n - i,
    {
        if str_eq(v[i].0.as_str(), key) {
            let p = (String::from_str(key), val);
            proof {
                lemma_assoc_update(v@, i as int, p);
            }
            v[i] = p;
            return;
        }
        i = i + 1;
    }
    proof {
        lemma_assoc_get_none(v@, key@);
    }
    let p = (String::from_str(key), val);
    proof {
        lemma_assoc_push(v@, p);
    }
    v.push(p);
}

/// Remove the entry with the given key; a no-op when there is none.
pub fn assoc_delete<V>(v: &mut Vec<(String, V)>, key: &str)
    requires
        assoc_wf(old(v)@),
    ensures
        assoc_wf(final(v)@),
        assoc_get(final(v)@, key@) is None,
        forall|k: Seq<char>| k != key@ ==> assoc_get(final(v)@, k) == assoc_get(old(v)@, k),
{
    let n = v.len();
    let mut i: usize = 0;
    while i < n
        invariant
            assoc_wf(v@),
            v@ == old(v)@,
            n == v@.len(),
            0 <= i <= n,
            forall|j: int| 0 <= j < i ==> (#[trigger] v@[j]).0@ != key@,
        decreases n - i,
    {
        if str_eq(v[i].0.as_str(), key) {
            proof {
                lemma_assoc_remove(v@, i as int);
            }
            v.remove(i);
            return;
        }
        i = i + 1;
    }
    proof {
        lemma_assoc_get_none(v@, key@);
    }
}

} // verus!
