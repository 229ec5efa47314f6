//! A bounded, time-expiring key/value store.
//!
//! Entries live for a fixed time-to-live; a read never returns an expired
//! entry. The store holds at most `max_capacity` entries in insertion
//! order; inserting past capacity evicts the least-recently-inserted
//! entry, so the victim is deterministic. Re-inserting a key drops its old
//! entry and puts the fresh one at the back.

use vstd::prelude::*;

use crate::assoc::{
    assoc_has, assoc_at, assoc_get, assoc_unique, assoc_remove, lemma_assoc_at_unique,
    lemma_assoc_remove, lemma_remove_keeps_unique, lemma_push_unique,
};

verus! {

/// A cached value together with its insertion time (milliseconds).
#[derive(Debug, Clone)]
pub struct CacheEntry<V> {
    pub data: V,
    pub timestamp: u64,
}

/// The key/value store. Its model is an association list from key
/// characters to value and insertion time, in insertion order.
pub struct BoundedTtlCache<V> {
    entries: Vec<(String, CacheEntry<V>)>,
    ttl_millis: u64,
    max_capacity: usize,
}

/// The model of `m` once `k` is bound to `v` at time `t` under capacity
/// `cap`: any old binding of `k` is dropped, the oldest entry is evicted
/// if the store is still full, and the new pair goes to the back.
pub open spec fn spec_set<V>(
    m: Seq<(Seq<char>, (V, int))>,
    k: Seq<char>,
    v: V,
    t: int,
    cap: int,
) -> Seq<(Seq<char>, (V, int))> {
    let without = assoc_remove(m, k);
    let trimmed = if without.len() >= cap {
        without.remove(0)
    } else {
        without
    };
    trimmed.push((k, (v, t)))
}

impl<V> BoundedTtlCache<V> {
    /// The association list this store represents.
    pub closed spec fn model(self) -> Seq<(Seq<char>, (V, int))> {
        self.entries@.map_values(
            |e: (String, CacheEntry<V>)| (e.0@, (e.1.data, e.1.timestamp as int)),
        )
    }

    /// The time-to-live, in milliseconds.
    pub closed spec fn ttl(self) -> int {
        self.ttl_millis as int
    }

    /// The capacity bound.
    pub closed spec fn capacity(self) -> int {
        self.max_capacity as int
    }

    /// Well-formed: unique keys, within capacity, capacity positive.
    pub open spec fn wf(self) -> bool {
        assoc_unique(self.model()) && self.model().len() <= self.capacity() && self.capacity() >= 1
    }

    /// Whether an entry (fresh or not) is stored under `k`.
    pub open spec fn has_key(self, k: Seq<char>) -> bool {
        assoc_has(self.model(), k)
    }

    /// The value stored under `k`.
    pub open spec fn value_of(self, k: Seq<char>) -> V {
        assoc_get(self.model(), k).0
    }

    /// The insertion time of the entry under `k`.
    pub open spec fn time_of(self, k: Seq<char>) -> int {
        assoc_get(self.model(), k).1
    }

    /// Whether a read of `k` at time `now` sees a value: an entry exists
    /// and its age is under the time-to-live.
    pub open spec fn fresh_at(self, k: Seq<char>, now: int) -> bool {
        self.has_key(k) && now < self.time_of(k) + self.ttl()
    }

    /// What a read of `k` at time `now` returns.
    pub open spec fn spec_get(self, k: Seq<char>, now: int) -> Option<V> {
        if self.fresh_at(k, now) {
            Some(self.value_of(k))
        } else {
            None
        }
    }

    /// An empty store with the given time-to-live and capacity.
    pub fn new(ttl_millis: u64, max_capacity: usize) -> (r: BoundedTtlCache<V>)
        requires
            max_capacity >= 1,
        ensures
            r.wf(),
            r.model() == Seq::<(Seq<char>, (V, int))>::empty(),
            r.ttl() == ttl_millis as int,
            r.capacity() == max_capacity as int,
    {
        let r = BoundedTtlCache { entries: Vec::new(), ttl_millis, max_capacity };
        proof {
            assert(r.model() =~= Seq::<(Seq<char>, (V, int))>::empty());
        }
        r
    }

    /// The index holding `key`, scanning from the front.
    fn find_index(&self, key: &String) -> (r: Option<usize>)
        ensures
            match r {
                Some(i) => 0 <= i < self.model().len() && self.model()[i as int].0 == key@,
                None => !assoc_has(self.model(), key@),
            },
    {
        let n = self.entries.len();
        let mut i: usize = 0;
        loop
            invariant
                0 <= i <= n,
                n == self.entries@.len(),
                forall|j: int| 0 <= j < i ==> (#[trigger] self.model()[j]).0 != key@,
            ensures
                (i < n && self.model()[i as int].0 == key@) || (i == n && !assoc_has(
                    self.model(),
                    key@,
                )),
            decreases n - i,
        {
            if i == n {
                break;
            }
            if self.entries[i].0.eq(key) {
                break;
            }
            i = i + 1;
        }
        if i < n {
            Some(i)
        } else {
            None
        }
    }

    /// Returns the value under `key` if one is present and unexpired at
    /// time `now`; never a stale value.
    pub fn get(&self, key: &String, now: u64) -> (r: Option<&V>)
        requires
            self.wf(),
        ensures
            match r {
                Some(v) => self.spec_get(key@, now as int) == Some(*v),
                None => self.spec_get(key@, now as int) is None,
            },
    {
        match self.find_index(key) {
            Some(i) => {
                proof {
                    lemma_assoc_at_unique(self.model(), key@, i as int);
                }
                let e = &self.entries[i].1;
                if now < e.timestamp || now - e.timestamp < self.ttl_millis {
                    Some(&e.data)
                } else {
                    None
                }
            },
            None => None,
        }
    }

    /// Inserts or replaces the entry under `key`, aged from `now`; evicts
    /// the oldest entry when the store would otherwise exceed capacity.
    pub fn set(&mut self, key: &String, value: V, now: u64)
        requires
            old(self).wf(),
        ensures
            final(self).wf(),
            final(self).ttl() == old(self).ttl(),
            final(self).capacity() == old(self).capacity(),
            final(self).model() == spec_set(
                old(self).model(),
                key@,
                value,
                now as int,
                old(self).capacity(),
            ),
    {
        let ghost m0 = self.model();
        proof {
            lemma_assoc_remove(m0, key@);
        }
        match self.find_index(key) {
            Some(i) => {
                proof {
                    lemma_assoc_at_unique(m0, key@, i as int);
                }
                let _ = self.entries.remove(i);
                proof {
                    assert(self.model() =~= assoc_remove(m0, key@));
                }
            },
            None => {
                proof {
                    assert(self.model() == assoc_remove(m0, key@));
                }
            },
        }
        let ghost m1 = self.model();
        if self.entries.len() >= self.max_capacity {
            proof {
                lemma_assoc_at_unique(m1, m1[0].0, 0);
                lemma_remove_keeps_unique(m1, 0);
            }
            let _ = self.entries.remove(0);
            proof {
                assert(self.model() =~= m1.remove(0));
                assert forall|p: int| 0 <= p < self.model().len() implies (
                #[trigger] self.model()[p]).0 != key@ by {
                    assert(self.model()[p] == m1[p + 1]);
                }
            }
        }
        let ghost m2 = self.model();
        proof {
            assert(!assoc_has(m2, key@));
            lemma_push_unique(m2, key@, (value, now as int));
        }
        self.entries.push((key.clone(), CacheEntry { data: value, timestamp: now }));
        proof {
            assert(self.model() =~= m2.push((key@, (value, now as int))));
            assert(self.model() =~= spec_set(m0, key@, value, now as int, old(self).capacity()));
        }
    }

    /// How many entries (fresh or expired) are resident.
    pub fn len(&self) -> (n: usize)
        ensures
            n == self.model().len(),
    {
        self.entries.len()
    }

    /// Drops every entry whose age has reached the time-to-live. Fresh
    /// entries keep their value and insertion time.
    pub fn clear_expired(&mut self, now: u64)
        requires
            old(self).wf(),
        ensures
            final(self).wf(),
            final(self).ttl() == old(self).ttl(),
            final(self).capacity() == old(self).capacity(),
            forall|k: Seq<char>| #[trigger]
                final(self).has_key(k) <==> old(self).fresh_at(k, now as int),
            forall|k: Seq<char>| #[trigger]
                final(self).has_key(k) ==> final(self).value_of(k) == old(self).value_of(k)
                    && final(self).time_of(k) == old(self).time_of(k),
    {
        let ghost m0 = self.model();
        let mut i: usize = 0;
        loop
            invariant
                old(self).wf(),
                m0 == old(self).model(),
                self.ttl_millis == old(self).ttl_millis,
                self.max_capacity == old(self).max_capacity,
                assoc_unique(self.model()),
                self.model().len() <= m0.len(),
                0 <= i <= self.model().len(),
                forall|j: int|
                    0 <= j < i ==> (now as int) < (#[trigger] self.model()[j]).1.1 + self.ttl(),
                forall|k: Seq<char>| #[trigger]
                    assoc_has(self.model(), k) ==> assoc_has(m0, k) && assoc_get(self.model(), k)
                        == assoc_get(m0, k),
                forall|k: Seq<char>|
                    assoc_has(m0, k) && (now as int) < assoc_get(m0, k).1 + self.ttl()
                        ==> #[trigger] assoc_has(self.model(), k),
            ensures
                i == self.model().len(),
                forall|j: int|
                    0 <= j < i ==> (now as int) < (#[trigger] self.model()[j]).1.1 + self.ttl(),
            decreases self.model().len() - i,
        {
            if i >= self.entries.len() {
                break;
            }
            let e = &self.entries[i].1;
            if now < e.timestamp || now - e.timestamp < self.ttl_millis {
                i = i + 1;
            } else {
                let ghost mc = self.model();
                proof {
                    lemma_assoc_at_unique(mc, mc[i as int].0, i as int);
                    lemma_assoc_remove(mc, mc[i as int].0);
                }
                let _ = self.entries.remove(i);
                proof {
                    assert(self.model() =~= mc.remove(i as int));
                    assert(self.model() =~= assoc_remove(mc, mc[i as int].0));
                    assert forall|j: int| 0 <= j < i implies (now as int) < (
                    #[trigger] self.model()[j]).1.1 + self.ttl() by {
                        assert(self.model()[j] == mc[j]);
                    }
                }
            }
        }
        proof {
            assert forall|k: Seq<char>| #[trigger] assoc_has(self.model(), k) implies (now as int)
                < assoc_get(self.model(), k).1 + self.ttl() by {
                let p = assoc_at(self.model(), k);
                lemma_assoc_at_unique(self.model(), k, p);
            }
        }
    }
}

/// Time-to-live law: once a value is bound at time `t`, a read at time
/// `now` returns exactly that value while `now < t + ttl`, and reports
/// absence from `t + ttl` on.
pub proof fn lemma_ttl<V>(
    pre: BoundedTtlCache<V>,
    post: BoundedTtlCache<V>,
    k: Seq<char>,
    v: V,
    t: int,
    now: int,
)
    requires
        pre.wf(),
        post.ttl() == pre.ttl(),
        post.model() == spec_set(pre.model(), k, v, t, pre.capacity()),
    ensures
        post.spec_get(k, now) == if now < t + pre.ttl() {
            Some(v)
        } else {
            None::<V>
        },
{
    lemma_spec_set_frame(pre, post, k, v, t);
}

/// Capacity law: an insertion never leaves more than `max_capacity`
/// entries, and on a full store a new key evicts exactly the
/// least-recently-inserted entry.
pub proof fn lemma_capacity<V>(
    pre: BoundedTtlCache<V>,
    post: BoundedTtlCache<V>,
    k: Seq<char>,
    v: V,
    t: int,
)
    requires
        pre.wf(),
        post.capacity() == pre.capacity(),
        post.model() == spec_set(pre.model(), k, v, t, pre.capacity()),
    ensures
        post.model().len() <= pre.capacity(),
        !assoc_has(pre.model(), k) && pre.model().len() == pre.capacity() ==> post.model()
            == pre.model().remove(0).push((k, (v, t))),
{
    lemma_spec_set_frame(pre, post, k, v, t);
}

/// What `spec_set` does to the association: the new key is bound to the
/// new value and time, the store stays well-formed, and at most the
/// oldest entry is lost.
proof fn lemma_spec_set_frame<V>(
    pre: BoundedTtlCache<V>,
    post: BoundedTtlCache<V>,
    k: Seq<char>,
    v: V,
    t: int,
)
    requires
        pre.wf(),
        post.model() == spec_set(pre.model(), k, v, t, pre.capacity()),
    ensures
        assoc_unique(post.model()),
        assoc_has(post.model(), k),
        assoc_get(post.model(), k) == (v, t),
        post.model().len() <= pre.capacity(),
        !assoc_has(pre.model(), k) && pre.model().len() == pre.capacity() ==> post.model()
            == pre.model().remove(0).push((k, (v, t))),
{
    let m0 = pre.model();
    lemma_assoc_remove(m0, k);
    let without = assoc_remove(m0, k);
    let trimmed = if without.len() >= pre.capacity() {
        without.remove(0)
    } else {
        without
    };
    if without.len() >= pre.capacity() {
        lemma_remove_keeps_unique(without, 0);
    }
    assert(!assoc_has(trimmed, k)) by {
        if assoc_has(trimmed, k) {
            let p = choose|p: int| 0 <= p < trimmed.len() && (#[trigger] trimmed[p]).0 == k;
            if without.len() >= pre.capacity() {
                assert(trimmed[p] == without[p + 1]);
            }
        }
    }
    lemma_push_unique(trimmed, k, (v, t));
    lemma_assoc_at_unique(post.model(), k, trimmed.len() as int);
    if !assoc_has(m0, k) && m0.len() == pre.capacity() {
        assert(without == m0);
        assert(post.model() == m0.remove(0).push((k, (v, t))));
    }
}

} // verus!
