//! Coalescing, TTL-bounded cache of per-tenant target sets.
//!
//! The cache fronts a slow discovery call. `get` never blocks on that call:
//! a miss (or an expired entry) enqueues at most one population request per
//! key on a bounded refresh queue and returns `Ok(None)` at once; the host's
//! refresh workers later report the upstream outcome through `populate`.
//! Entries live in recency order: the front of `entries` is the least
//! recently used entry and is the one evicted on capacity overflow. Entries
//! past their freshness deadline are treated as absent; a stale value is
//! never served.

use vstd::prelude::*;

verus! {

/// One resident entry: the resolved target set of a tenant plus the deadline
/// until which it may be served. An empty target set is a valid, cacheable
/// resolution.
pub struct CacheEntry {
    pub key: u128,
    pub targets: Vec<u128>,
    pub deadline: u64,
}

/// Outcome of one upstream population attempt, as a closed union so that
/// every call site handles all four variants.
pub enum PopulationResult {
    /// The discovery call resolved the tenant to these targets.
    Found(Vec<u128>),
    /// The discovery call answered explicitly that the tenant has no targets.
    FoundEmpty,
    /// The attempt failed for a transient (network or I/O class) reason.
    FailedRetryable(String),
    /// The attempt failed for a reason that retrying will not repair.
    FailedFatal(String),
}

/// Error surfaced by `get` for a population attempt that failed. Callers
/// must treat the two kinds differently: a retryable error re-routes the
/// message, a fatal one terminates the dispatch loop.
pub enum CacheError {
    Retryable(String),
    Fatal(String),
}

/// A recorded population failure, held until the next `get` for its key
/// surfaces it.
pub struct FailureRecord {
    pub key: u128,
    pub retryable: bool,
    pub reason: String,
}

/// How `get` classifies a lookup: a fresh entry is served, a recorded
/// population failure is surfaced, anything else is a miss that requests a
/// refresh.
pub enum GetCase {
    Hit,
    Failure,
    Miss,
}

/// True when no two entries share a key.
pub open spec fn distinct_entry_keys(s: Seq<CacheEntry>) -> bool {
    forall|p: int, q: int| 0 <= p < q < s.len() ==> s[p].key != s[q].key
}

/// True when some entry of `s` carries `key`.
pub open spec fn key_in(s: Seq<CacheEntry>, key: u128) -> bool {
    exists|i: int| 0 <= i < s.len() && s[i].key == key
}

/// The freshness deadline written by a population at time `now` under `ttl_ms`.
pub open spec fn spec_deadline(now: u64, ttl_ms: u64) -> u64 {
    if now + ttl_ms <= u64::MAX {
        (now + ttl_ms) as u64
    } else {
        u64::MAX
    }
}

/// The cache. `capacity` bounds the resident entries, `ttl_ms` is the
/// freshness window, `refresh_queue_depth` bounds the pending population
/// requests, and `refresh_pool_size` records how many workers the host may
/// run against the queue (it does not constrain the logical state).
pub struct TargetCache {
    pub entries: Vec<CacheEntry>,
    pub pending: Vec<u128>,
    pub failures: Vec<FailureRecord>,
    pub capacity: usize,
    pub ttl_ms: u64,
    pub refresh_queue_depth: usize,
    pub refresh_pool_size: usize,
}

impl TargetCache {
    /// Internal consistency: the capacity and queue bounds hold, keys are
    /// unique in each component, and a key whose population is in flight has
    /// no failure recorded yet.
    pub open spec fn wf(self) -> bool {
        &&& 1 <= self.capacity
        &&& self.entries@.len() <= self.capacity
        &&& distinct_entry_keys(self.entries@)
        &&& self.pending@.len() <= self.refresh_queue_depth
        &&& (forall|p: int, q: int|
            0 <= p < q < self.pending@.len() ==> self.pending@[p] != self.pending@[q])
        &&& (forall|p: int, q: int|
            0 <= p < q < self.failures@.len() ==> self.failures@[p].key != self.failures@[q].key)
        &&& (forall|i: int|
            0 <= i < self.failures@.len() ==> !self.pending@.contains(self.failures@[i].key))
    }

    /// The configuration fields, which no operation changes.
    pub open spec fn same_config(self, other: TargetCache) -> bool {
        &&& self.capacity == other.capacity
        &&& self.ttl_ms == other.ttl_ms
        &&& self.refresh_queue_depth == other.refresh_queue_depth
        &&& self.refresh_pool_size == other.refresh_pool_size
    }

    pub open spec fn has_entry(self, key: u128) -> bool {
        key_in(self.entries@, key)
    }

    pub open spec fn entry_index(self, key: u128) -> int {
        choose|i: int| 0 <= i < self.entries@.len() && self.entries@[i].key == key
    }

    pub open spec fn entry_at(self, key: u128) -> CacheEntry {
        self.entries@[self.entry_index(key)]
    }

    /// A resident entry for `key` exists and its deadline has not passed.
    pub open spec fn fresh_at(self, key: u128, now: u64) -> bool {
        self.has_entry(key) && now < self.entry_at(key).deadline
    }

    pub open spec fn has_failure(self, key: u128) -> bool {
        exists|i: int| 0 <= i < self.failures@.len() && self.failures@[i].key == key
    }

    pub open spec fn failure_index(self, key: u128) -> int {
        choose|i: int| 0 <= i < self.failures@.len() && self.failures@[i].key == key
    }

    pub open spec fn failure_at(self, key: u128) -> FailureRecord {
        self.failures@[self.failure_index(key)]
    }

    pub open spec fn pending_has(self, key: u128) -> bool {
        self.pending@.contains(key)
    }

    pub open spec fn pending_index(self, key: u128) -> int {
        choose|i: int| 0 <= i < self.pending@.len() && self.pending@[i] == key
    }

    pub open spec fn refresh_queue_full(self) -> bool {
        self.pending@.len() >= self.refresh_queue_depth
    }

    /// Which of the three outcomes a `get` for `key` at `now` takes.
    pub open spec fn get_case(self, key: u128, now: u64) -> GetCase {
        if self.fresh_at(key, now) {
            GetCase::Hit
        } else if self.has_failure(key) {
            GetCase::Failure
        } else {
            GetCase::Miss
        }
    }

    /// The entries after a `get`: a fresh hit moves its entry to the
    /// most-recently-used end; nothing else touches the entries.
    pub open spec fn entries_after_get(self, key: u128, now: u64) -> Seq<CacheEntry> {
        if self.get_case(key, now) is Hit {
            self.entries@.remove(self.entry_index(key)).push(self.entry_at(key))
        } else {
            self.entries@
        }
    }

    /// The refresh queue after a `get`: a miss enqueues the key unless a
    /// request for it is already in flight (single-flight coalescing) or the
    /// queue is full (the request is dropped, not surfaced).
    pub open spec fn pending_after_get(self, key: u128, now: u64) -> Seq<u128> {
        if self.get_case(key, now) is Miss && !self.pending_has(key) && !self.refresh_queue_full() {
            self.pending@.push(key)
        } else {
            self.pending@
        }
    }

    /// The failure records after a `get`: surfacing a failure consumes it.
    pub open spec fn failures_after_get(self, key: u128, now: u64) -> Seq<FailureRecord> {
        if self.get_case(key, now) is Failure {
            self.failures@.remove(self.failure_index(key))
        } else {
            self.failures@
        }
    }

    /// The entries after storing `e`: an existing entry for the key is
    /// replaced in place of recency, a new key is appended as most recently
    /// used, and on overflow the least-recently-used entry (the front) is
    /// evicted first.
    pub open spec fn entries_after_insert(self, e: CacheEntry) -> Seq<CacheEntry> {
        if self.has_entry(e.key) {
            self.entries@.remove(self.entry_index(e.key)).push(e)
        } else if self.entries@.len() < self.capacity {
            self.entries@.push(e)
        } else {
            self.entries@.subrange(1, self.entries@.len() as int).push(e)
        }
    }

    pub fn new(capacity: usize, ttl_ms: u64, refresh_pool_size: usize, refresh_queue_depth: usize)
        -> (c: TargetCache)
        requires
            capacity >= 1,
        ensures
            c.wf(),
            c.entries@ == Seq::<CacheEntry>::empty(),
            c.pending@ == Seq::<u128>::empty(),
            c.failures@ == Seq::<FailureRecord>::empty(),
            c.capacity == capacity,
            c.ttl_ms == ttl_ms,
            c.refresh_queue_depth == refresh_queue_depth,
            c.refresh_pool_size == refresh_pool_size,
    {
        TargetCache {
            entries: Vec::new(),
            pending: Vec::new(),
            failures: Vec::new(),
            capacity,
            ttl_ms,
            refresh_queue_depth,
            refresh_pool_size,
        }
    }

    fn find_entry(&self, key: u128) -> (r: Option<usize>)
        requires
            self.wf(),
        ensures
            r is Some <==> self.has_entry(key),
            r matches Some(i) ==> i < self.entries@.len() && i as int == self.entry_index(key)
                && self.entries@[i as int].key == key,
    {
        let mut i: usize = 0;
        while i < self.entries.len()
            invariant
                self.wf(),
                i <= self.entries@.len(),
                forall|j: int| 0 <= j < i ==> self.entries@[j].key != key,
            decreases self.entries@.len() - i,
        {
            if self.entries[i].key == key {
                proof {
                    assert(self.has_entry(key));
                    let j = self.entry_index(key);
                    if i as int != j {
                        assert(self.entries@[i as int].key != self.entries@[j].key);
                    }
                }
                return Some(i);
            }
            i = i + 1;
        }
        proof {
            if self.has_entry(key) {
                let j = self.entry_index(key);
                assert(self.entries@[j].key == key);
            }
        }
        None
    }

    fn find_failure(&self, key: u128) -> (r: Option<usize>)
        requires
            self.wf(),
        ensures
            r is Some <==> self.has_failure(key),
            r matches Some(i) ==> i < self.failures@.len() && i as int == self.failure_index(key)
                && self.failures@[i as int].key == key,
    {
        let mut i: usize = 0;
        while i < self.failures.len()
            invariant
                self.wf(),
                i <= self.failures@.len(),
                forall|j: int| 0 <= j < i ==> self.failures@[j].key != key,
            decreases self.failures@.len() - i,
        {
            if self.failures[i].key == key {
                proof {
                    assert(self.has_failure(key));
                    let j = self.failure_index(key);
                    if i as int != j {
                        assert(self.failures@[i as int].key != self.failures@[j].key);
                    }
                }
                return Some(i);
            }
            i = i + 1;
        }
        proof {
            if self.has_failure(key) {
                let j = self.failure_index(key);
                assert(self.failures@[j].key == key);
            }
        }
        None
    }

    fn find_pending(&self, key: u128) -> (r: Option<usize>)
        requires
            self.wf(),
        ensures
            r is Some <==> self.pending_has(key),
            r matches Some(i) ==> i < self.pending@.len() && i as int == self.pending_index(key)
                && self.pending@[i as int] == key,
    {
        let mut i: usize = 0;
        while i < self.pending.len()
            invariant
                self.wf(),
                i <= self.pending@.len(),
                forall|j: int| 0 <= j < i ==> self.pending@[j] != key,
            decreases self.pending@.len() - i,
        {
            if self.pending[i] == key {
                proof {
                    assert(self.pending@[i as int] == key);
                    assert(self.pending_has(key));
                    let j = self.pending_index(key);
                    if i as int != j {
                        assert(self.pending@[i as int] != self.pending@[j]);
                    }
                }
                return Some(i);
            }
            i = i + 1;
        }
        proof {
            if self.pending_has(key) {
                let j = choose|j: int| 0 <= j < self.pending@.len() && self.pending@[j] == key;
                assert(self.pending@[j] == key);
            }
        }
        None
    }

    /// Look `key` up at time `now`.
    ///
    /// A fresh entry is served as `Ok(Some(targets))` with no upstream work
    /// and its recency refreshed. A recorded population failure is consumed
    /// and surfaced as `Err`, retryable or fatal by its kind. Anything else
    /// is a miss: the key is enqueued for background population — unless a
    /// request for it is already in flight or the queue is full — and the
    /// caller gets `Ok(None)` immediately.
    pub fn get(&mut self, key: u128, now: u64) -> (r: Result<Option<Vec<u128>>, CacheError>)
        requires
            old(self).wf(),
        ensures
            final(self).wf(),
            old(self).same_config(*final(self)),
            final(self).entries@ == old(self).entries_after_get(key, now),
            final(self).pending@ == old(self).pending_after_get(key, now),
            final(self).failures@ == old(self).failures_after_get(key, now),
            old(self).get_case(key, now) is Hit ==> (r matches Ok(Some(ts)) && ts@ == old(
                self,
            ).entry_at(key).targets@),
            old(self).get_case(key, now) is Miss ==> r matches Ok(None),
            (old(self).get_case(key, now) is Failure && old(self).failure_at(key).retryable) ==> (
            r matches Err(CacheError::Retryable(m)) && m@ == old(self).failure_at(key).reason@),
            (old(self).get_case(key, now) is Failure && !old(self).failure_at(key).retryable) ==> (
            r matches Err(CacheError::Fatal(m)) && m@ == old(self).failure_at(key).reason@),
    {
        let found = self.find_entry(key);
        if let Some(i) = found {
            if now < self.entries[i].deadline {
                let ghost olds = self.entries@;
                let e = self.entries.remove(i);
                let targets = e.targets.clone();
                self.entries.push(e);
                proof {
                    lemma_remove_push_distinct(olds, i as int, olds[i as int]);
                    assert(self.entries@ =~= olds.remove(i as int).push(olds[i as int]));
                }
                return Ok(Some(targets));
            }
        }
        let failed = self.find_failure(key);
        match failed {
            Some(i) => {
                let ghost oldf = self.failures@;
                let f = self.failures.remove(i);
                proof {
                    assert forall|p: int, q: int|
                        0 <= p < q < self.failures@.len() implies self.failures@[p].key != self
                        .failures@[q].key by {
                        assert(self.failures@[p] == if p < i as int {
                            oldf[p]
                        } else {
                            oldf[p + 1]
                        });
                        assert(self.failures@[q] == if q < i as int {
                            oldf[q]
                        } else {
                            oldf[q + 1]
                        });
                    }
                    assert forall|j: int| 0 <= j < self.failures@.len() implies !self
                        .pending@.contains(self.failures@[j].key) by {
                        assert(self.failures@[j] == if j < i as int {
                            oldf[j]
                        } else {
                            oldf[j + 1]
                        });
                    }
                }
                let FailureRecord { key: _, retryable, reason } = f;
                if retryable {
                    Err(CacheError::Retryable(reason))
                } else {
                    Err(CacheError::Fatal(reason))
                }
            },
            None => {
                let in_flight = self.find_pending(key);
                if in_flight.is_none() && self.pending.len() < self.refresh_queue_depth {
                    self.pending.push(key);
                    proof {
                        assert forall|p: int, q: int|
                            0 <= p < q < self.pending@.len() implies self.pending@[p] != self
                            .pending@[q] by {
                            if q < self.pending@.len() - 1 {
                                assert(old(self).pending@[p] != old(self).pending@[q]);
                            } else {
                                assert(!old(self).pending_has(key));
                                assert(old(self).pending@.contains(old(self).pending@[p])) by {
                                    assert(old(self).pending@[p] == old(self).pending@[p]);
                                }
                            }
                        }
                        assert forall|j: int| 0 <= j < self.failures@.len() implies !self
                            .pending@.contains(self.failures@[j].key) by {
                            assert(!old(self).has_failure(self.failures@[j].key) ==> false);
                            assert(old(self).failures@[j].key == self.failures@[j].key);
                            if self.pending@.contains(self.failures@[j].key) {
                                let w = choose|w: int|
                                    0 <= w < self.pending@.len() && self.pending@[w] == self
                                        .failures@[j].key;
                                if w < self.pending@.len() - 1 {
                                    assert(old(self).pending@[w] == self.failures@[j].key);
                                    assert(old(self).pending@.contains(self.failures@[j].key));
                                } else {
                                    // the pushed key has no failure record in a miss
                                    assert(self.pending@[w] == key);
                                }
                            }
                        }
                    }
                }
                Ok(None)
            },
        }
    }

    /// The keys whose population is requested or in flight, in request
    /// order. The host's refresh workers read this to know what to resolve;
    /// a key stays listed until `populate` reports its outcome.
    pub fn refresh_requests(&self) -> (r: &Vec<u128>)
        ensures
            r@ == self.pending@,
    {
        &self.pending
    }

    /// Record the outcome of the population triggered for `key`.
    ///
    /// The in-flight marker for the key is always cleared. A successful
    /// resolution — with targets or explicitly empty — is stored as a fresh
    /// entry, evicting the least-recently-used entry if the cache is full. A
    /// failed attempt does not touch the entries; it is recorded so that the
    /// next `get` for the key surfaces it with its kind and reason.
    pub fn populate(&mut self, key: u128, result: PopulationResult, now: u64)
        requires
            old(self).wf(),
            old(self).pending_has(key),
        ensures
            final(self).wf(),
            old(self).same_config(*final(self)),
            final(self).pending@ == old(self).pending@.remove(old(self).pending_index(key)),
            !final(self).pending_has(key),
            result matches PopulationResult::Found(v) ==> ({
                &&& final(self).entries@.len() > 0
                &&& final(self).entries@.last().key == key
                &&& final(self).entries@.last().targets@ == v@
                &&& final(self).entries@.last().deadline == spec_deadline(now, old(self).ttl_ms)
                &&& final(self).entries@ == old(self).entries_after_insert(
                    final(self).entries@.last(),
                )
                &&& final(self).failures@ == old(self).failures@
            }),
            (result is FoundEmpty) ==> ({
                &&& final(self).entries@.len() > 0
                &&& final(self).entries@.last().key == key
                &&& final(self).entries@.last().targets@ == Seq::<u128>::empty()
                &&& final(self).entries@.last().deadline == spec_deadline(now, old(self).ttl_ms)
                &&& final(self).entries@ == old(self).entries_after_insert(
                    final(self).entries@.last(),
                )
                &&& final(self).failures@ == old(self).failures@
            }),
            result matches PopulationResult::FailedRetryable(m) ==> ({
                &&& final(self).entries@ == old(self).entries@
                &&& final(self).failures@.len() == old(self).failures@.len() + 1
                &&& final(self).failures@ == old(self).failures@.push(final(self).failures@.last())
                &&& final(self).failures@.last().key == key
                &&& final(self).failures@.last().retryable == true
                &&& final(self).failures@.last().reason@ == m@
            }),
            result matches PopulationResult::FailedFatal(m) ==> ({
                &&& final(self).entries@ == old(self).entries@
                &&& final(self).failures@.len() == old(self).failures@.len() + 1
                &&& final(self).failures@ == old(self).failures@.push(final(self).failures@.last())
                &&& final(self).failures@.last().key == key
                &&& final(self).failures@.last().retryable == false
                &&& final(self).failures@.last().reason@ == m@
            }),
    {
        let pi = self.find_pending(key);
        let i = pi.unwrap();
        let ghost oldp = self.pending@;
        self.pending.remove(i);
        proof {
            assert forall|p: int, q: int|
                0 <= p < q < self.pending@.len() implies self.pending@[p] != self.pending@[q] by {
                assert(self.pending@[p] == if p < i as int {
                    oldp[p]
                } else {
                    oldp[p + 1]
                });
                assert(self.pending@[q] == if q < i as int {
                    oldp[q]
                } else {
                    oldp[q + 1]
                });
            }
            if self.pending@.contains(key) {
                let w = choose|w: int|
                    0 <= w < self.pending@.len() && self.pending@[w] == key;
                assert(oldp[if w < i as int {
                    w
                } else {
                    w + 1
                }] == key);
                assert(oldp[i as int] == key);
            }
            assert forall|j: int| 0 <= j < self.failures@.len() implies !self.pending@.contains(
                self.failures@[j].key,
            ) by {
                if self.pending@.contains(self.failures@[j].key) {
                    let w = choose|w: int|
                        0 <= w < self.pending@.len() && self.pending@[w] == self.failures@[j].key;
                    assert(oldp[if w < i as int {
                        w
                    } else {
                        w + 1
                    }] == self.failures@[j].key);
                    assert(oldp.contains(self.failures@[j].key));
                }
            }
        }
        proof {
            // the key had a population in flight, so no failure is recorded for it
            if self.has_failure(key) {
                let j = self.failure_index(key);
                assert(old(self).failures@[j].key == key);
                assert(!old(self).pending@.contains(key));
            }
        }
        match result {
            PopulationResult::Found(targets) => {
                self.store_entry(key, targets, now);
            },
            PopulationResult::FoundEmpty => {
                self.store_entry(key, Vec::new(), now);
            },
            PopulationResult::FailedRetryable(reason) => {
                self.record_failure(key, true, reason);
            },
            PopulationResult::FailedFatal(reason) => {
                self.record_failure(key, false, reason);
            },
        }
    }

    fn store_entry(&mut self, key: u128, targets: Vec<u128>, now: u64)
        requires
            old(self).wf(),
        ensures
            final(self).wf(),
            old(self).same_config(*final(self)),
            final(self).pending@ == old(self).pending@,
            final(self).failures@ == old(self).failures@,
            final(self).entries@.len() > 0,
            final(self).entries@.last().key == key,
            final(self).entries@.last().targets@ == targets@,
            final(self).entries@.last().deadline == spec_deadline(now, old(self).ttl_ms),
            final(self).entries@ == old(self).entries_after_insert(final(self).entries@.last()),
    {
        let deadline = if now <= u64::MAX - self.ttl_ms {
            now + self.ttl_ms
        } else {
            u64::MAX
        };
        let ghost olds = self.entries@;
        let found = self.find_entry(key);
        match found {
            Some(i) => {
                self.entries.remove(i);
                let e = CacheEntry { key, targets, deadline };
                proof {
                    lemma_remove_push_distinct(olds, i as int, e);
                }
                self.entries.push(e);
                proof {
                    assert(self.entries@ =~= olds.remove(old(self).entry_index(key)).push(
                        self.entries@.last(),
                    ));
                }
            },
            None => {
                if self.entries.len() == self.capacity {
                    self.entries.remove(0);
                    proof {
                        assert(self.entries@ =~= olds.subrange(1, olds.len() as int));
                    }
                }
                let e = CacheEntry { key, targets, deadline };
                let ghost trimmed = self.entries@;
                self.entries.push(e);
                proof {
                    assert forall|p: int, q: int|
                        0 <= p < q < self.entries@.len() implies self.entries@[p].key != self
                        .entries@[q].key by {
                        if q < self.entries@.len() - 1 {
                            let base: int = if trimmed.len() < olds.len() {
                                1
                            } else {
                                0
                            };
                            assert(olds[p + base].key != olds[q + base].key);
                        } else {
                            let base: int = if trimmed.len() < olds.len() {
                                1
                            } else {
                                0
                            };
                            assert(self.entries@[p] == olds[p + base]);
                            assert(!key_in(olds, key));
                        }
                    }
                    if olds.len() < old(self).capacity {
                        assert(self.entries@ =~= olds.push(self.entries@.last()));
                    } else {
                        assert(self.entries@ =~= olds.subrange(1, olds.len() as int).push(
                            self.entries@.last(),
                        ));
                    }
                }
            },
        }
    }

    fn record_failure(&mut self, key: u128, retryable: bool, reason: String)
        requires
            old(self).wf(),
            !old(self).pending_has(key),
            !old(self).has_failure(key),
        ensures
            final(self).wf(),
            old(self).same_config(*final(self)),
            final(self).pending@ == old(self).pending@,
            final(self).entries@ == old(self).entries@,
            final(self).failures@.len() == old(self).failures@.len() + 1,
            final(self).failures@ == old(self).failures@.push(final(self).failures@.last()),
            final(self).failures@.last().key == key,
            final(self).failures@.last().retryable == retryable,
            final(self).failures@.last().reason@ == reason@,
    {
        let ghost oldf = self.failures@;
        self.failures.push(FailureRecord { key, retryable, reason });
        proof {
            assert(self.failures@ =~= oldf.push(self.failures@.last()));
            assert forall|p: int, q: int|
                0 <= p < q < self.failures@.len() implies self.failures@[p].key != self
                .failures@[q].key by {
                if q < self.failures@.len() - 1 {
                    assert(oldf[p].key != oldf[q].key);
                } else {
                    assert(self.failures@[p] == oldf[p]);
                    assert(!old(self).has_failure(key) ==> oldf[p].key != key) by {
                        if oldf[p].key == key {
                            assert(0 <= p < oldf.len() && oldf[p].key == key);
                        }
                    }
                }
            }
        }
    }
}

/// Single-flight coalescing: a `get` for a key whose population is already
/// in flight leaves the refresh queue exactly as it was, so concurrent
/// callers for one key trigger at most one upstream population call.
pub proof fn lemma_single_flight(c: TargetCache, key: u128, now: u64)
    requires
        c.wf(),
        c.pending_has(key),
    ensures
        c.pending_after_get(key, now) == c.pending@,
{
}

/// In a well-formed cache the refresh queue holds at most one request per
/// key: any two queue positions carrying the same key are the same position.
pub proof fn lemma_pending_unique(c: TargetCache, key: u128)
    requires
        c.wf(),
    ensures
        forall|p: int, q: int|
            (0 <= p < c.pending@.len() && 0 <= q < c.pending@.len() && c.pending@[p] == key
                && c.pending@[q] == key) ==> p == q,
{
    assert forall|p: int, q: int|
        (0 <= p < c.pending@.len() && 0 <= q < c.pending@.len() && c.pending@[p] == key
            && c.pending@[q] == key) implies p == q by {
        if p < q {
            assert(c.pending@[p] != c.pending@[q]);
        } else if q < p {
            assert(c.pending@[q] != c.pending@[p]);
        }
    }
}

/// Strict freshness, first half: while an entry's deadline has not passed, a
/// lookup is a hit and serves exactly the stored target set — the value is
/// served unmodified for the whole freshness window.
pub proof fn lemma_fresh_value_served(c: TargetCache, key: u128, now: u64)
    requires
        c.wf(),
        c.fresh_at(key, now),
    ensures
        c.get_case(key, now) is Hit,
        c.entries_after_get(key, now).last() == c.entry_at(key),
{
}

/// Strict freshness, second half: once the deadline has passed (or no entry
/// exists), a lookup is never a hit — a stale value is never served, it can
/// only be replaced by a new population.
pub proof fn lemma_stale_never_served(c: TargetCache, key: u128, now: u64)
    requires
        c.wf(),
        !c.fresh_at(key, now),
    ensures
        !(c.get_case(key, now) is Hit),
{
}

/// Eviction policy: storing a new key into a full cache evicts exactly the
/// least-recently-used entry (the front of the recency order); every other
/// resident entry — the most-recently-used one in particular — survives.
/// (With capacity one the sole entry is at once least and most recently
/// used, so the cache must hold at least two entries for the two claims to
/// be distinct.)
pub proof fn lemma_overflow_evicts_lru(c: TargetCache, e: CacheEntry)
    requires
        c.wf(),
        c.capacity >= 2,
        !c.has_entry(e.key),
        c.entries@.len() == c.capacity,
    ensures
        c.entries_after_insert(e) == c.entries@.subrange(1, c.entries@.len() as int).push(e),
        forall|j: int|
            1 <= j < c.entries@.len() ==> c.entries_after_insert(e).contains(c.entries@[j]),
        c.entries_after_insert(e).contains(e),
        !c.entries_after_insert(e).contains(c.entries@[0]),
        c.entries_after_insert(e).contains(c.entries@[c.entries@.len() - 1]),
{
    let n = c.entries@.len() as int;
    let after = c.entries_after_insert(e);
    assert(after == c.entries@.subrange(1, n).push(e));
    assert forall|j: int| 1 <= j < n implies after.contains(c.entries@[j]) by {
        assert(after[j - 1] == c.entries@[j]);
    }
    assert(after[n - 1] == e);
    assert(!after.contains(c.entries@[0])) by {
        if after.contains(c.entries@[0]) {
            let w = choose|w: int| 0 <= w < after.len() && after[w] == c.entries@[0];
            if w < n - 1 {
                assert(after[w] == c.entries@[w + 1]);
                assert(c.entries@[0].key != c.entries@[w + 1].key);
            } else {
                assert(after[w] == e);
                assert(key_in(c.entries@, c.entries@[0].key)) by {
                    assert(c.entries@[0].key == c.entries@[0].key);
                }
            }
        }
    }
    assert(after.contains(c.entries@[n - 1])) by {
        if n == 1 {
            assert(false);
        } else {
            assert(after[n - 2] == c.entries@[n - 1]);
        }
    }
}

proof fn lemma_remove_push_distinct(s: Seq<CacheEntry>, i: int, e: CacheEntry)
    requires
        0 <= i < s.len(),
        distinct_entry_keys(s),
        e.key == s[i].key,
    ensures
        distinct_entry_keys(s.remove(i).push(e)),
        s.remove(i).push(e).len() == s.len(),
{
    let t = s.remove(i).push(e);
    assert forall|p: int, q: int| 0 <= p < q < t.len() implies t[p].key != t[q].key by {
        let n = s.len() as int;
        let fp: int = if p < i {
            p
        } else if p < n - 1 {
            p + 1
        } else {
            i
        };
        let fq: int = if q < i {
            q
        } else if q < n - 1 {
            q + 1
        } else {
            i
        };
        assert(t[p] == if p < n - 1 {
            s.remove(i)[p]
        } else {
            e
        });
        assert(t[q] == if q < n - 1 {
            s.remove(i)[q]
        } else {
            e
        });
        assert(p < n - 1 ==> t[p] == s[fp]);
        assert(q < n - 1 ==> t[q] == s[fq]);
        assert(t[p].key == s[fp].key);
        assert(t[q].key == s[fq].key);
        if fp < fq {
            assert(s[fp].key != s[fq].key);
        } else if fq < fp {
            assert(s[fq].key != s[fp].key);
        }
    }
}

} // verus!
