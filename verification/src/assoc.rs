//! Specification-level association lists: sequences of key/value pairs
//! with pairwise-distinct keys, the model of every keyed structure in this
//! crate.

use vstd::prelude::*;

verus! {

/// Whether some pair of `m` carries the key `k`.
pub open spec fn assoc_has<T>(m: Seq<(Seq<char>, T)>, k: Seq<char>) -> bool {
    exists|i: int| 0 <= i < m.len() && (#[trigger] m[i]).0 == k
}

/// The index of the pair carrying `k` (meaningful when keys are unique).
pub open spec fn assoc_at<T>(m: Seq<(Seq<char>, T)>, k: Seq<char>) -> int {
    choose|i: int| 0 <= i < m.len() && (#[trigger] m[i]).0 == k
}

/// The value stored under `k`.
pub open spec fn assoc_get<T>(m: Seq<(Seq<char>, T)>, k: Seq<char>) -> T {
    m[assoc_at(m, k)].1
}

/// Whether the keys of `m` are pairwise distinct.
pub open spec fn assoc_unique<T>(m: Seq<(Seq<char>, T)>) -> bool {
    forall|i: int, j: int|
        0 <= i < j < m.len() ==> (#[trigger] m[i]).0 != (#[trigger] m[j]).0
}

/// `m` without the pair carrying `k`; `m` itself when no pair does.
pub open spec fn assoc_remove<T>(m: Seq<(Seq<char>, T)>, k: Seq<char>) -> Seq<(Seq<char>, T)> {
    if assoc_has(m, k) {
        m.remove(assoc_at(m, k))
    } else {
        m
    }
}

/// `m` with `k` bound to `v`: an existing binding is dropped and the new
/// pair goes to the back.
pub open spec fn assoc_set<T>(m: Seq<(Seq<char>, T)>, k: Seq<char>, v: T) -> Seq<(Seq<char>, T)> {
    assoc_remove(m, k).push((k, v))
}

/// With unique keys, the pair at any index carrying `k` is the one
/// `assoc_at` picks.
pub proof fn lemma_assoc_at_unique<T>(m: Seq<(Seq<char>, T)>, k: Seq<char>, i: int)
    requires
        assoc_unique(m),
        0 <= i < m.len(),
        m[i].0 == k,
    ensures
        assoc_has(m, k),
        assoc_at(m, k) == i,
{
    assert(assoc_has(m, k));
    let j = assoc_at(m, k);
    if j != i {
        if j < i {
            assert(m[j].0 != m[i].0);
        } else {
            assert(m[i].0 != m[j].0);
        }
    }
}

/// Removing any index keeps the keys pairwise distinct, keeps every other
/// key, and brings in nothing new.
pub proof fn lemma_remove_keeps_unique<T>(m: Seq<(Seq<char>, T)>, i: int)
    requires
        assoc_unique(m),
        0 <= i < m.len(),
    ensures
        assoc_unique(m.remove(i)),
        forall|k: Seq<char>| assoc_has(m.remove(i), k) ==> assoc_has(m, k),
{
    let r = m.remove(i);
    assert forall|p: int, q: int| 0 <= p < q < r.len() implies (#[trigger] r[p]).0 != (
    #[trigger] r[q]).0 by {
        let p0 = if p < i {
            p
        } else {
            p + 1
        };
        let q0 = if q < i {
            q
        } else {
            q + 1
        };
        assert(r[p] == m[p0]);
        assert(r[q] == m[q0]);
    }
    assert forall|k: Seq<char>| assoc_has(r, k) implies assoc_has(m, k) by {
        let p = choose|p: int| 0 <= p < r.len() && (#[trigger] r[p]).0 == k;
        let p0 = if p < i {
            p
        } else {
            p + 1
        };
        assert(r[p] == m[p0]);
    }
}

/// After removing the unique binding of `k`, no pair carries `k` any more,
/// and every other key keeps its value.
pub proof fn lemma_assoc_remove<T>(m: Seq<(Seq<char>, T)>, k: Seq<char>)
    requires
        assoc_unique(m),
    ensures
        assoc_unique(assoc_remove(m, k)),
        !assoc_has(assoc_remove(m, k), k),
        forall|k2: Seq<char>|
            k2 != k ==> (#[trigger] assoc_has(assoc_remove(m, k), k2)) == assoc_has(m, k2),
        forall|k2: Seq<char>|
            k2 != k && assoc_has(m, k2) ==> #[trigger] assoc_get(assoc_remove(m, k), k2)
                == assoc_get(m, k2),
{
    if assoc_has(m, k) {
        let i = assoc_at(m, k);
        let r = m.remove(i);
        lemma_remove_keeps_unique(m, i);
        assert forall|p: int| 0 <= p < r.len() implies (#[trigger] r[p]).0 != k by {
            let p0 = if p < i {
                p
            } else {
                p + 1
            };
            assert(r[p] == m[p0]);
            if p0 != i {
                lemma_assoc_at_unique(m, k, i);
                if r[p].0 == k {
                    lemma_assoc_at_unique(m, k, p0);
                }
            }
        }
        assert forall|k2: Seq<char>| k2 != k && assoc_has(m, k2) implies assoc_has(r, k2)
            && assoc_get(r, k2) == assoc_get(m, k2) by {
            let p0 = assoc_at(m, k2);
            assert(m[p0].0 == k2);
            let p = if p0 < i {
                p0
            } else {
                p0 - 1
            };
            assert(r[p] == m[p0]);
            lemma_assoc_at_unique(r, k2, p);
        }
    }
}

/// Pushing a fresh key keeps the keys pairwise distinct.
pub proof fn lemma_push_unique<T>(m: Seq<(Seq<char>, T)>, k: Seq<char>, v: T)
    requires
        assoc_unique(m),
        !assoc_has(m, k),
    ensures
        assoc_unique(m.push((k, v))),
{
    let s = m.push((k, v));
    assert forall|p: int, q: int| 0 <= p < q < s.len() implies (#[trigger] s[p]).0 != (
    #[trigger] s[q]).0 by {
        if q < m.len() {
            assert(s[p] == m[p]);
            assert(s[q] == m[q]);
        } else {
            assert(s[p] == m[p]);
            assert(s[q] == (k, v));
        }
    }
}

} // verus!
