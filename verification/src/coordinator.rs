//! In-flight request coalescing: tracks the computations currently
//! running per cache key so concurrent callers for the same key share one
//! upstream call.
//!
//! For a given key, at most one caller is the owner at a time: the first
//! caller is told nothing is running and must register; every later
//! caller joins as a waiter until the owner completes. Completion removes
//! the key exactly once and reports how many waiters the one result must
//! be delivered to.

use vstd::prelude::*;

use crate::assoc::{
    assoc_has, assoc_at, assoc_get, assoc_unique, assoc_remove, lemma_assoc_at_unique,
    lemma_assoc_remove, lemma_push_unique,
};

verus! {

/// What a caller of `join_or_start` learns: an in-flight computation
/// exists (with the caller's waiter slot), or none does and the caller
/// must start one.
#[derive(Debug, Clone, PartialEq, Eq, Structural)]
pub enum JoinOutcome {
    AlreadyRunning(u64),
    NotRunning,
}

/// The pending set: per key, the number of waiters joined so far.
pub struct PendingRequestCoordinator {
    pending: Vec<(String, u64)>,
}

/// `m` after one caller joins the in-flight computation for `k`; `m`
/// itself when none is running.
pub open spec fn spec_join(m: Seq<(Seq<char>, int)>, k: Seq<char>) -> Seq<(Seq<char>, int)> {
    if assoc_has(m, k) {
        m.update(assoc_at(m, k), (k, assoc_get(m, k) + 1))
    } else {
        m
    }
}

/// `m` after `n` callers join the in-flight computation for `k` in turn.
pub open spec fn spec_join_n(m: Seq<(Seq<char>, int)>, k: Seq<char>, n: nat) -> Seq<
    (Seq<char>, int),
>
    decreases n,
{
    if n == 0 {
        m
    } else {
        spec_join(spec_join_n(m, k, (n - 1) as nat), k)
    }
}

/// `m` after a computation for `k` is registered with no waiters yet.
pub open spec fn spec_register(m: Seq<(Seq<char>, int)>, k: Seq<char>) -> Seq<(Seq<char>, int)> {
    m.push((k, 0))
}

/// One completed result fanned out to `n` waiters.
pub open spec fn spec_deliveries<R>(n: int, result: R) -> Seq<R> {
    Seq::new(n as nat, |i: int| result)
}

impl PendingRequestCoordinator {
    /// The association list this set represents: key to waiter count.
    pub closed spec fn model(self) -> Seq<(Seq<char>, int)> {
        self.pending@.map_values(|e: (String, u64)| (e.0@, e.1 as int))
    }

    /// Well-formed: one entry per key.
    pub open spec fn wf(self) -> bool {
        assoc_unique(self.model())
    }

    /// Whether a computation for `k` is in flight.
    pub open spec fn is_pending(self, k: Seq<char>) -> bool {
        assoc_has(self.model(), k)
    }

    /// How many waiters have joined the computation for `k`.
    pub open spec fn waiters_of(self, k: Seq<char>) -> int {
        assoc_get(self.model(), k)
    }

    /// An empty pending set.
    pub fn new() -> (r: PendingRequestCoordinator)
        ensures
            r.wf(),
            r.model() == Seq::<(Seq<char>, int)>::empty(),
    {
        let r = PendingRequestCoordinator { pending: Vec::new() };
        proof {
            assert(r.model() =~= Seq::<(Seq<char>, int)>::empty());
        }
        r
    }

    /// How many computations are in flight.
    pub fn len(&self) -> (n: usize)
        ensures
            n == self.model().len(),
    {
        self.pending.len()
    }

    /// The index holding `key`, scanning from the front.
    fn find_index(&self, key: &String) -> (r: Option<usize>)
        ensures
            match r {
                Some(i) => 0 <= i < self.model().len() && self.model()[i as int].0 == key@,
                None => !assoc_has(self.model(), key@),
            },
    {
        let n = self.pending.len();
        let mut i: usize = 0;
        loop
            invariant
                0 <= i <= n,
                n == self.pending@.len(),
                forall|j: int| 0 <= j < i ==> (#[trigger] self.model()[j]).0 != key@,
            ensures
                (i < n && self.model()[i as int].0 == key@) || (i == n && !assoc_has(
                    self.model(),
                    key@,
                )),
            decreases n - i,
        {
            if i == n {
                break;
            }
            if self.pending[i].0.eq(key) {
                break;
            }
            i = i + 1;
        }
        if i < n {
            Some(i)
        } else {
            None
        }
    }

    /// Joins the in-flight computation for `key` as one more waiter, or
    /// reports that the caller must start (and register) one.
    pub fn join_or_start(&mut self, key: &String) -> (r: JoinOutcome)
        requires
            old(self).wf(),
            old(self).is_pending(key@) ==> old(self).waiters_of(key@) < u64::MAX,
        ensures
            final(self).wf(),
            final(self).model() == spec_join(old(self).model(), key@),
            old(self).is_pending(key@) ==> (r matches JoinOutcome::AlreadyRunning(w) && w as int
                == old(self).waiters_of(key@)),
            !old(self).is_pending(key@) ==> r == JoinOutcome::NotRunning && final(self).model()
                == old(self).model(),
    {
        let ghost m0 = self.model();
        match self.find_index(key) {
            Some(i) => {
                proof {
                    lemma_assoc_at_unique(m0, key@, i as int);
                }
                let slot = self.pending[i].1;
                let e = &mut self.pending[i];
                e.1 = e.1 + 1;
                proof {
                    assert(self.model() =~= spec_join(m0, key@));
                    assert forall|p: int, q: int|
                        0 <= p < q < self.model().len() implies (#[trigger] self.model()[p]).0 != (
                    #[trigger] self.model()[q]).0 by {
                        assert(self.model()[p].0 == m0[p].0);
                        assert(self.model()[q].0 == m0[q].0);
                    }
                }
                JoinOutcome::AlreadyRunning(slot)
            },
            None => {
                proof {
                    assert(spec_join(m0, key@) == m0);
                }
                JoinOutcome::NotRunning
            },
        }
    }

    /// Registers the caller as the owner of the computation for `key`.
    pub fn register(&mut self, key: &String)
        requires
            old(self).wf(),
            !old(self).is_pending(key@),
        ensures
            final(self).wf(),
            final(self).model() == spec_register(old(self).model(), key@),
            final(self).is_pending(key@),
            final(self).waiters_of(key@) == 0,
    {
        let ghost m0 = self.model();
        self.pending.push((key.clone(), 0));
        proof {
            assert(self.model() =~= spec_register(m0, key@));
            lemma_push_unique(m0, key@, 0int);
            assert(self.model() == m0.push((key@, 0int)));
            lemma_assoc_at_unique(self.model(), key@, m0.len() as int);
        }
    }

    /// Removes the pending computation for `key` (exactly once) and
    /// reports how many waiters its one result goes to; a no-op reporting
    /// zero waiters when nothing is pending.
    pub fn complete(&mut self, key: &String) -> (waiters: u64)
        requires
            old(self).wf(),
        ensures
            final(self).wf(),
            final(self).model() == assoc_remove(old(self).model(), key@),
            !final(self).is_pending(key@),
            waiters as int == if old(self).is_pending(key@) {
                old(self).waiters_of(key@)
            } else {
                0
            },
    {
        let ghost m0 = self.model();
        proof {
            lemma_assoc_remove(m0, key@);
        }
        match self.find_index(key) {
            Some(i) => {
                proof {
                    lemma_assoc_at_unique(m0, key@, i as int);
                }
                let e = self.pending.remove(i);
                proof {
                    assert(self.model() =~= m0.remove(i as int));
                }
                e.1
            },
            None => {
                proof {
                    assert(self.model() == assoc_remove(m0, key@));
                }
                0
            },
        }
    }
}

/// One join on a pending key: the key stays pending, its waiter count
/// grows by one, and nothing else changes.
proof fn lemma_join_pending(m: Seq<(Seq<char>, int)>, k: Seq<char>)
    requires
        assoc_unique(m),
        assoc_has(m, k),
    ensures
        assoc_unique(spec_join(m, k)),
        assoc_has(spec_join(m, k), k),
        assoc_get(spec_join(m, k), k) == assoc_get(m, k) + 1,
        assoc_remove(spec_join(m, k), k) == assoc_remove(m, k),
{
    let i = assoc_at(m, k);
    assert(0 <= i < m.len() && m[i].0 == k);
    let s = m.update(i, (k, assoc_get(m, k) + 1));
    assert forall|p: int, q: int| 0 <= p < q < s.len() implies (#[trigger] s[p]).0 != (
    #[trigger] s[q]).0 by {
        assert(s[p].0 == m[p].0);
        assert(s[q].0 == m[q].0);
    }
    lemma_assoc_at_unique(s, k, i);
    lemma_assoc_remove(m, k);
    lemma_assoc_remove(s, k);
    assert(assoc_remove(s, k) =~= assoc_remove(m, k));
}

/// Coalescing law: when no computation for `k` is running, one caller
/// registers as the sole owner, the `n` callers that arrive before
/// completion all join that same computation (none becomes a second
/// owner), completion finds exactly those `n` waiters and removes the key
/// exactly once, and each of the `n` waiters is handed the same one
/// result.
pub proof fn lemma_coalescing<R>(m: Seq<(Seq<char>, int)>, k: Seq<char>, n: nat, result: R)
    requires
        assoc_unique(m),
        !assoc_has(m, k),
    ensures
        assoc_unique(spec_join_n(spec_register(m, k), k, n)),
        assoc_has(spec_join_n(spec_register(m, k), k, n), k),
        assoc_get(spec_join_n(spec_register(m, k), k, n), k) == n,
        assoc_remove(spec_join_n(spec_register(m, k), k, n), k) == m,
        spec_deliveries(n as int, result).len() == n,
        forall|i: int| 0 <= i < n ==> spec_deliveries(n as int, result)[i] == result,
    decreases n,
{
    let m1 = spec_register(m, k);
    if n == 0 {
        lemma_push_unique(m, k, 0int);
        lemma_assoc_at_unique(m1, k, m.len() as int);
        lemma_assoc_remove(m1, k);
        assert(assoc_remove(m1, k) =~= m);
    } else {
        lemma_coalescing(m, k, (n - 1) as nat, result);
        lemma_join_pending(spec_join_n(m1, k, (n - 1) as nat), k);
    }
}

} // verus!
