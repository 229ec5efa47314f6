//! The shared cache: one bounded TTL store per data category plus the
//! pending-request coordinator, and the decision chain a request handler
//! follows on a miss (serve cached, await the in-flight computation, or
//! fetch and publish).

use vstd::prelude::*;

use crate::assoc::assoc_remove;
use crate::cache::{BoundedTtlCache, spec_set};
use crate::coordinator::{JoinOutcome, PendingRequestCoordinator, spec_join, spec_register};
use crate::{CACHE_MAX_CAPACITY, CACHE_TTL_MILLIS};

verus! {

/// Entry counts for observability.
#[derive(Debug, Clone, PartialEq, Eq, Structural)]
pub struct CacheStats {
    pub attendance_cache_size: u64,
    pub quiz_cache_size: u64,
    pub all_attendance_cache_size: u64,
    pub pending_requests: u64,
}

/// What a handler must do for a key: serve the cached value, await the
/// computation already in flight (as the given waiter), or fetch itself
/// and publish the result.
#[derive(Debug, Clone, PartialEq, Eq, Structural)]
pub enum Plan {
    UseCached,
    AwaitPending(u64),
    FetchAndPublish,
}

/// One store per data category, sharing one TTL and capacity policy, and
/// the coordinator of in-flight computations.
pub struct Cache<V> {
    attendance_cache: BoundedTtlCache<V>,
    quiz_cache: BoundedTtlCache<V>,
    all_attendance_cache: BoundedTtlCache<V>,
    pending_requests: PendingRequestCoordinator,
}

impl<V> Cache<V> {
    /// The attendance store.
    pub closed spec fn attendance(self) -> BoundedTtlCache<V> {
        self.attendance_cache
    }

    /// The quiz store.
    pub closed spec fn quiz(self) -> BoundedTtlCache<V> {
        self.quiz_cache
    }

    /// The all-attendance store.
    pub closed spec fn all_attendance(self) -> BoundedTtlCache<V> {
        self.all_attendance_cache
    }

    /// The pending-computation coordinator.
    pub closed spec fn pending(self) -> PendingRequestCoordinator {
        self.pending_requests
    }

    /// Well-formed: each store and the pending set are.
    pub open spec fn wf(self) -> bool {
        self.attendance().wf() && self.quiz().wf() && self.all_attendance().wf()
            && self.pending().wf()
    }

    /// Empty stores under the fixed five-minute TTL and thousand-entry
    /// capacity.
    pub fn new() -> (r: Cache<V>)
        ensures
            r.wf(),
            r.attendance().model().len() == 0,
            r.quiz().model().len() == 0,
            r.all_attendance().model().len() == 0,
            r.pending().model().len() == 0,
            r.attendance().ttl() == CACHE_TTL_MILLIS as int,
            r.quiz().ttl() == CACHE_TTL_MILLIS as int,
            r.all_attendance().ttl() == CACHE_TTL_MILLIS as int,
            r.attendance().capacity() == CACHE_MAX_CAPACITY as int,
            r.quiz().capacity() == CACHE_MAX_CAPACITY as int,
            r.all_attendance().capacity() == CACHE_MAX_CAPACITY as int,
    {
        Cache {
            attendance_cache: BoundedTtlCache::new(CACHE_TTL_MILLIS, CACHE_MAX_CAPACITY),
            quiz_cache: BoundedTtlCache::new(CACHE_TTL_MILLIS, CACHE_MAX_CAPACITY),
            all_attendance_cache: BoundedTtlCache::new(CACHE_TTL_MILLIS, CACHE_MAX_CAPACITY),
            pending_requests: PendingRequestCoordinator::new(),
        }
    }

    /// Reads the attendance store; never a stale value.
    pub fn get_attendance(&self, key: &String, now: u64) -> (r: Option<&V>)
        requires
            self.wf(),
        ensures
            match r {
                Some(v) => self.attendance().spec_get(key@, now as int) == Some(*v),
                None => self.attendance().spec_get(key@, now as int) is None,
            },
    {
        self.attendance_cache.get(key, now)
    }

    /// Writes the attendance store.
    pub fn set_attendance(&mut self, key: &String, value: V, now: u64)
        requires
            old(self).wf(),
        ensures
            final(self).wf(),
            final(self).attendance().model() == spec_set(
                old(self).attendance().model(),
                key@,
                value,
                now as int,
                old(self).attendance().capacity(),
            ),
            final(self).attendance().ttl() == old(self).attendance().ttl(),
            final(self).attendance().capacity() == old(self).attendance().capacity(),
            final(self).quiz() == old(self).quiz(),
            final(self).all_attendance() == old(self).all_attendance(),
            final(self).pending() == old(self).pending(),
    {
        self.attendance_cache.set(key, value, now);
    }

    /// Reads the quiz store; never a stale value.
    pub fn get_quiz(&self, key: &String, now: u64) -> (r: Option<&V>)
        requires
            self.wf(),
        ensures
            match r {
                Some(v) => self.quiz().spec_get(key@, now as int) == Some(*v),
                None => self.quiz().spec_get(key@, now as int) is None,
            },
    {
        self.quiz_cache.get(key, now)
    }

    /// Writes the quiz store.
    pub fn set_quiz(&mut self, key: &String, value: V, now: u64)
        requires
            old(self).wf(),
        ensures
            final(self).wf(),
            final(self).quiz().model() == spec_set(
                old(self).quiz().model(),
                key@,
                value,
                now as int,
                old(self).quiz().capacity(),
            ),
            final(self).quiz().ttl() == old(self).quiz().ttl(),
            final(self).quiz().capacity() == old(self).quiz().capacity(),
            final(self).attendance() == old(self).attendance(),
            final(self).all_attendance() == old(self).all_attendance(),
            final(self).pending() == old(self).pending(),
    {
        self.quiz_cache.set(key, value, now);
    }

    /// Reads the all-attendance store; never a stale value.
    pub fn get_all_attendance(&self, key: &String, now: u64) -> (r: Option<&V>)
        requires
            self.wf(),
        ensures
            match r {
                Some(v) => self.all_attendance().spec_get(key@, now as int) == Some(*v),
                None => self.all_attendance().spec_get(key@, now as int) is None,
            },
    {
        self.all_attendance_cache.get(key, now)
    }

    /// Writes the all-attendance store.
    pub fn set_all_attendance(&mut self, key: &String, value: V, now: u64)
        requires
            old(self).wf(),
        ensures
            final(self).wf(),
            final(self).all_attendance().model() == spec_set(
                old(self).all_attendance().model(),
                key@,
                value,
                now as int,
                old(self).all_attendance().capacity(),
            ),
            final(self).all_attendance().ttl() == old(self).all_attendance().ttl(),
            final(self).all_attendance().capacity() == old(self).all_attendance().capacity(),
            final(self).attendance() == old(self).attendance(),
            final(self).quiz() == old(self).quiz(),
            final(self).pending() == old(self).pending(),
    {
        self.all_attendance_cache.set(key, value, now);
    }

    /// Joins the in-flight computation for `key` or reports that the
    /// caller must start one.
    pub fn join_or_start(&mut self, key: &String) -> (r: JoinOutcome)
        requires
            old(self).wf(),
            old(self).pending().is_pending(key@) ==> old(self).pending().waiters_of(key@)
                < u64::MAX,
        ensures
            final(self).wf(),
            final(self).pending().model() == spec_join(old(self).pending().model(), key@),
            old(self).pending().is_pending(key@) ==> (r matches JoinOutcome::AlreadyRunning(w) && w
                as int == old(self).pending().waiters_of(key@)),
            !old(self).pending().is_pending(key@) ==> r == JoinOutcome::NotRunning,
            final(self).attendance() == old(self).attendance(),
            final(self).quiz() == old(self).quiz(),
            final(self).all_attendance() == old(self).all_attendance(),
    {
        self.pending_requests.join_or_start(key)
    }

    /// Registers the caller as owner of the computation for `key`.
    pub fn register_pending(&mut self, key: &String)
        requires
            old(self).wf(),
            !old(self).pending().is_pending(key@),
        ensures
            final(self).wf(),
            final(self).pending().model() == spec_register(old(self).pending().model(), key@),
            final(self).attendance() == old(self).attendance(),
            final(self).quiz() == old(self).quiz(),
            final(self).all_attendance() == old(self).all_attendance(),
    {
        self.pending_requests.register(key)
    }

    /// Removes the pending computation for `key` exactly once and
    /// reports how many waiters its one result goes to.
    pub fn complete_pending_request(&mut self, key: &String) -> (waiters: u64)
        requires
            old(self).wf(),
        ensures
            final(self).wf(),
            final(self).pending().model() == assoc_remove(old(self).pending().model(), key@),
            waiters as int == if old(self).pending().is_pending(key@) {
                old(self).pending().waiters_of(key@)
            } else {
                0
            },
            final(self).attendance() == old(self).attendance(),
            final(self).quiz() == old(self).quiz(),
            final(self).all_attendance() == old(self).all_attendance(),
    {
        self.pending_requests.complete(key)
    }

    /// Drops expired entries from every store.
    pub fn clear_expired(&mut self, now: u64)
        requires
            old(self).wf(),
        ensures
            final(self).wf(),
            forall|k: Seq<char>| #[trigger]
                final(self).quiz().has_key(k) <==> old(self).quiz().fresh_at(k, now as int),
            forall|k: Seq<char>| #[trigger]
                final(self).attendance().has_key(k) <==> old(self).attendance().fresh_at(
                    k,
                    now as int,
                ),
            forall|k: Seq<char>| #[trigger]
                final(self).all_attendance().has_key(k) <==> old(self).all_attendance().fresh_at(
                    k,
                    now as int,
                ),
            final(self).pending() == old(self).pending(),
    {
        self.attendance_cache.clear_expired(now);
        self.quiz_cache.clear_expired(now);
        self.all_attendance_cache.clear_expired(now);
    }

    /// Current entry counts; side-effect-free.
    pub fn get_stats(&self) -> (stats: CacheStats)
        ensures
            stats.attendance_cache_size == self.attendance().model().len(),
            stats.quiz_cache_size == self.quiz().model().len(),
            stats.all_attendance_cache_size == self.all_attendance().model().len(),
            stats.pending_requests == self.pending().model().len(),
    {
        CacheStats {
            attendance_cache_size: self.attendance_cache.len() as u64,
            quiz_cache_size: self.quiz_cache.len() as u64,
            all_attendance_cache_size: self.all_attendance_cache.len() as u64,
            pending_requests: self.pending_requests.len() as u64,
        }
    }

    /// The decision chain of the quiz endpoint on one request: serve the
    /// fresh cached value if one exists; else join the in-flight
    /// computation if one is running; else become the owner (registered
    /// here) and fetch.
    pub fn plan_quiz(&mut self, key: &String, now: u64) -> (p: Plan)
        requires
            old(self).wf(),
            old(self).pending().is_pending(key@) ==> old(self).pending().waiters_of(key@)
                < u64::MAX,
        ensures
            final(self).wf(),
            final(self).attendance() == old(self).attendance(),
            final(self).quiz() == old(self).quiz(),
            final(self).all_attendance() == old(self).all_attendance(),
            old(self).quiz().fresh_at(key@, now as int) ==> p == Plan::UseCached
                && final(self).pending() == old(self).pending(),
            !old(self).quiz().fresh_at(key@, now as int) && old(self).pending().is_pending(key@)
                ==> (p matches Plan::AwaitPending(w) && w as int == old(self).pending().waiters_of(
                key@,
            ) && final(self).pending().model() == spec_join(old(self).pending().model(), key@)),
            !old(self).quiz().fresh_at(key@, now as int) && !old(self).pending().is_pending(key@)
                ==> p == Plan::FetchAndPublish && final(self).pending().model() == spec_register(
                old(self).pending().model(),
                key@,
            ),
    {
        let hit = self.quiz_cache.get(key, now).is_some();
        if hit {
            return Plan::UseCached;
        }
        match self.pending_requests.join_or_start(key) {
            JoinOutcome::AlreadyRunning(w) => Plan::AwaitPending(w),
            JoinOutcome::NotRunning => {
                self.pending_requests.register(key);
                Plan::FetchAndPublish
            },
        }
    }

    /// The owner's publication step: store the computed value in the quiz
    /// store and release the pending computation, learning how many
    /// waiters the one result goes to.
    pub fn publish_quiz(&mut self, key: &String, value: V, now: u64) -> (waiters: u64)
        requires
            old(self).wf(),
        ensures
            final(self).wf(),
            final(self).quiz().model() == spec_set(
                old(self).quiz().model(),
                key@,
                value,
                now as int,
                old(self).quiz().capacity(),
            ),
            final(self).quiz().ttl() == old(self).quiz().ttl(),
            final(self).pending().model() == assoc_remove(old(self).pending().model(), key@),
            waiters as int == if old(self).pending().is_pending(key@) {
                old(self).pending().waiters_of(key@)
            } else {
                0
            },
            final(self).attendance() == old(self).attendance(),
            final(self).all_attendance() == old(self).all_attendance(),
    {
        self.quiz_cache.set(key, value, now);
        self.pending_requests.complete(key)
    }
}

} // verus!

