//! Fixed-window rate limiting. Each key has a counter that starts over once
//! its window has elapsed. The decisions are made over a time in milliseconds
//! since the limiter was created, which the caller or the clock supplies.

use std::time::{Duration, Instant};

use vstd::prelude::*;
use vstd::pervasive::VecAdditionalExecFns;

use crate::blend::sat_sub;

verus! {

#[verifier::external_type_specification]
#[verifier::external_body]
pub struct ExInstant(std::time::Instant);

/// Relies on `Instant::now`: the current monotonic instant.
#[verifier::external_body]
fn instant_now() -> Instant {
    Instant::now()
}

/// Relies on `Instant::elapsed`: the time since `epoch`.
#[verifier::external_body]
fn elapsed_since(epoch: &Instant) -> Duration {
    epoch.elapsed()
}

/// Relies on `Duration::as_millis`: the length of a duration in milliseconds.
#[verifier::external_body]
fn duration_millis(d: Duration) -> u64 {
    d.as_millis() as u64
}

/// Counter of one key: when its window started and how many requests it took.
pub struct Bucket {
    pub key: String,
    pub start_ms: u64,
    pub count: u64,
}

/// Fixed-window rate limiter over string keys.
pub struct RateLimiter {
    pub window_ms: u64,
    pub epoch: Instant,
    pub buckets: Vec<Bucket>,
}

/// Outcome of one rate-limit check.
#[derive(Clone, Copy, Debug, PartialEq, Eq, Structural)]
pub struct RateLimitResult {
    /// Whether the request is allowed.
    pub allowed: bool,
    /// Configured limit for this key.
    pub limit: u64,
    /// Requests remaining in the current window.
    pub remaining: u64,
    /// Seconds until the current window resets.
    pub reset_secs: u64,
}

/// A response paired with the rate-limit state to report alongside it.
pub struct RateLimited<T> {
    pub inner: T,
    pub rate_limit: RateLimitResult,
}

/// The (window start, count) of `key`, from the last bucket that holds it.
pub open spec fn lookup(bs: Seq<Bucket>, key: Seq<char>) -> Option<(u64, u64)>
    decreases bs.len(),
{
    if bs.len() == 0 {
        None
    } else if bs.last().key@ == key {
        Some((bs.last().start_ms, bs.last().count))
    } else {
        lookup(bs.drop_last(), key)
    }
}

pub open spec fn unique_keys(bs: Seq<Bucket>) -> bool {
    forall|i: int, j: int| 0 <= i < j < bs.len() ==> bs[i].key@ != bs[j].key@
}

/// The counter a request at `now` finds: a missing or expired one starts afresh at `now`.
pub open spec fn current_bucket(entry: Option<(u64, u64)>, window: u64, now: u64) -> (u64, u64) {
    match entry {
        Some((start, count)) => if sat_sub(now as int, start as int) >= window {
            (now, 0)
        } else {
            (start, count)
        },
        None => (now, 0),
    }
}

/// The outcome of a request at `now` that finds the counter `(start, count)`.
pub open spec fn spec_outcome(cur: (u64, u64), window: u64, limit: u64, now: u64) -> RateLimitResult {
    let reset = (sat_sub(window as int, sat_sub(now as int, cur.0 as int)) / 1000) as u64;
    if cur.1 >= limit {
        RateLimitResult { allowed: false, limit, remaining: 0, reset_secs: reset }
    } else {
        RateLimitResult { allowed: true, limit, remaining: (limit - (cur.1 + 1)) as u64, reset_secs: reset }
    }
}

/// The counter after the request: one more when the request was allowed.
pub open spec fn next_bucket(cur: (u64, u64), limit: u64) -> (u64, u64) {
    if cur.1 >= limit {
        cur
    } else {
        (cur.0, (cur.1 + 1) as u64)
    }
}

/// An entry survives pruning while its window has not elapsed at `now`.
pub open spec fn pruned(entry: Option<(u64, u64)>, window: u64, now: u64) -> Option<(u64, u64)> {
    match entry {
        Some((start, count)) => if sat_sub(now as int, start as int) < window {
            Some((start, count))
        } else {
            None
        },
        None => None,
    }
}

/// `after` holds exactly the counters of `before` that survive pruning at `now`.
pub open spec fn is_pruned(before: Seq<Bucket>, after: Seq<Bucket>, window: u64, now: u64) -> bool {
    forall|k: Seq<char>| lookup(after, k) == pruned(lookup(before, k), window, now)
}

proof fn lemma_lookup_found(bs: Seq<Bucket>, i: int)
    requires
        unique_keys(bs),
        0 <= i < bs.len(),
    ensures
        lookup(bs, bs[i].key@) == Some((bs[i].start_ms, bs[i].count)),
    decreases bs.len(),
{
    if i < bs.len() - 1 {
        assert(bs.drop_last()[i] == bs[i]);
        lemma_lookup_found(bs.drop_last(), i);
    }
}

proof fn lemma_lookup_absent(bs: Seq<Bucket>, key: Seq<char>)
    requires
        forall|i: int| 0 <= i < bs.len() ==> bs[i].key@ != key,
    ensures
        lookup(bs, key) is None,
    decreases bs.len(),
{
    if bs.len() > 0 {
        lemma_lookup_absent(bs.drop_last(), key);
    }
}

proof fn lemma_lookup_update(bs: Seq<Bucket>, i: int, b: Bucket, key: Seq<char>)
    requires
        0 <= i < bs.len(),
        bs[i].key@ == b.key@,
        key != b.key@,
    ensures
        lookup(bs.update(i, b), key) == lookup(bs, key),
    decreases bs.len(),
{
    let us = bs.update(i, b);
    if i < bs.len() - 1 {
        assert(us.drop_last() =~= bs.drop_last().update(i, b));
        lemma_lookup_update(bs.drop_last(), i, b, key);
    } else {
        assert(us.drop_last() =~= bs.drop_last());
    }
}

impl RateLimiter {
    pub open spec fn wf(&self) -> bool {
        unique_keys(self.buckets@)
    }

    /// Creates a limiter whose windows last `window`; no key has a counter yet.
    pub fn new(window: Duration) -> (r: RateLimiter)
        ensures
            r.wf(),
            r.buckets@.len() == 0,
    {
        RateLimiter { window_ms: duration_millis(window), epoch: instant_now(), buckets: Vec::new() }
    }

    /// Checks and counts one request for `key_id` with the given `limit`, at
    /// `now_ms` milliseconds after the limiter was created.
    pub fn check_at(&mut self, key_id: &str, limit: u64, now_ms: u64) -> (r: RateLimitResult)
        requires
            old(self).wf(),
        ensures
            final(self).wf(),
            final(self).window_ms == old(self).window_ms,
            r == spec_outcome(
                current_bucket(lookup(old(self).buckets@, key_id@), old(self).window_ms, now_ms),
                old(self).window_ms,
                limit,
                now_ms,
            ),
            lookup(final(self).buckets@, key_id@) == Some(
                next_bucket(current_bucket(lookup(old(self).buckets@, key_id@), old(self).window_ms, now_ms), limit),
            ),
            forall|k: Seq<char>| k != key_id@ ==> lookup(final(self).buckets@, k) == lookup(old(self).buckets@, k),
    {
        let key = key_id.to_owned();
        let n = self.buckets.len();
        let mut i: usize = 0;
        while i < n && !(self.buckets[i].key == key)
            invariant
                n == self.buckets@.len(),
                i <= n,
                key@ == key_id@,
                forall|j: int| 0 <= j < i ==> self.buckets@[j].key@ != key_id@,
            decreases n - i,
        {
            i += 1;
        }
        let ghost entry = lookup(self.buckets@, key_id@);
        let (start, count) = if i < n {
            proof {
                lemma_lookup_found(self.buckets@, i as int);
            }
            (self.buckets[i].start_ms, self.buckets[i].count)
        } else {
            proof {
                lemma_lookup_absent(self.buckets@, key_id@);
            }
            (now_ms, 0)
        };
        let elapsed = if now_ms > start { now_ms - start } else { 0 };
        let (start, count) = if i < n && elapsed >= self.window_ms {
            (now_ms, 0)
        } else {
            (start, count)
        };
        assert((start, count) == current_bucket(entry, self.window_ms, now_ms));
        let elapsed = if now_ms > start { now_ms - start } else { 0 };
        let left = if self.window_ms > elapsed { self.window_ms - elapsed } else { 0 };
        let reset_secs = left / 1000;
        let (result, count) = if count >= limit {
            (RateLimitResult { allowed: false, limit, remaining: 0, reset_secs }, count)
        } else {
            (RateLimitResult { allowed: true, limit, remaining: limit - (count + 1), reset_secs }, count + 1)
        };
        let b = Bucket { key, start_ms: start, count };
        let ghost before = self.buckets@;
        if i < n {
            self.buckets.set(i, b);
            proof {
                assert forall|k: Seq<char>| k != key_id@ implies lookup(self.buckets@, k) == lookup(before, k) by {
                    lemma_lookup_update(before, i as int, b, k);
                }
                assert forall|p: int, q: int| 0 <= p < q < self.buckets@.len() implies self.buckets@[p].key@
                    != self.buckets@[q].key@ by {
                    assert(before[p].key@ != before[q].key@);
                }
                lemma_lookup_found(self.buckets@, i as int);
            }
        } else {
            self.buckets.push(b);
            proof {
                assert(self.buckets@.drop_last() =~= before);
                assert forall|p: int, q: int| 0 <= p < q < self.buckets@.len() implies self.buckets@[p].key@
                    != self.buckets@[q].key@ by {
                    if q < before.len() {
                        assert(before[p].key@ != before[q].key@);
                    }
                }
            }
        }
        result
    }

    /// Drops the counters whose window has elapsed at `now_ms`.
    pub fn prune_stale_at(&mut self, now_ms: u64)
        requires
            old(self).wf(),
        ensures
            final(self).wf(),
            final(self).window_ms == old(self).window_ms,
            is_pruned(old(self).buckets@, final(self).buckets@, old(self).window_ms, now_ms),
    {
        let ghost bs = self.buckets@;
        let window = self.window_ms;
        let n = self.buckets.len();
        let mut out: Vec<Bucket> = Vec::new();
        let ghost mut src: Seq<int> = Seq::empty();
        let mut i: usize = 0;
        while i < n
            invariant
                bs == self.buckets@,
                unique_keys(bs),
                window == self.window_ms,
                n == bs.len(),
                i <= n,
                unique_keys(out@),
                src.len() == out@.len(),
                forall|j: int| 0 <= j < src.len() ==> 0 <= #[trigger] src[j] < i && out@[j].key@ == bs[src[j]].key@,
                forall|k: Seq<char>| lookup(out@, k) == pruned(lookup(bs.subrange(0, i as int), k), window, now_ms),
            decreases n - i,
        {
            let ghost prev = out@;
            let b = &self.buckets[i];
            proof {
                assert(bs.subrange(0, i + 1).drop_last() =~= bs.subrange(0, i as int));
                assert(bs.subrange(0, i + 1).last() == bs[i as int]);
            }
            let elapsed = if now_ms > b.start_ms { now_ms - b.start_ms } else { 0 };
            if elapsed < window {
                out.push(Bucket { key: b.key.clone(), start_ms: b.start_ms, count: b.count });
                proof {
                    assert(out@.drop_last() =~= prev);
                    src = src.push(i as int);
                    assert forall|p: int, q: int| 0 <= p < q < out@.len() implies out@[p].key@ != out@[q].key@ by {
                        if q == out@.len() - 1 {
                            assert(src[p] < i);
                            assert(bs[src[p]].key@ != bs[i as int].key@);
                        } else {
                            assert(prev[p].key@ != prev[q].key@);
                        }
                    }
                    assert forall|k: Seq<char>|
                        lookup(out@, k) == pruned(lookup(bs.subrange(0, i + 1), k), window, now_ms) by {
                        if k != bs[i as int].key@ {
                            assert(lookup(out@, k) == lookup(prev, k));
                        }
                    }
                }
            } else {
                proof {
                    assert forall|j: int| 0 <= j < out@.len() implies out@[j].key@ != bs[i as int].key@ by {
                        assert(src[j] < i);
                    }
                    lemma_lookup_absent(out@, bs[i as int].key@);
                    assert forall|k: Seq<char>|
                        lookup(out@, k) == pruned(lookup(bs.subrange(0, i + 1), k), window, now_ms) by {
                        if k != bs[i as int].key@ {
                            assert(lookup(bs.subrange(0, i + 1), k) == lookup(bs.subrange(0, i as int), k));
                        }
                    }
                }
            }
            i += 1;
        }
        assert(bs.subrange(0, n as int) =~= bs);
        self.buckets = out;
    }

    /// Drops the counters whose window has elapsed.
    pub fn prune_stale(&mut self)
        requires
            old(self).wf(),
        ensures
            final(self).wf(),
            final(self).window_ms == old(self).window_ms,
            exists|now: u64| is_pruned(old(self).buckets@, final(self).buckets@, old(self).window_ms, now),
    {
        let now = duration_millis(elapsed_since(&self.epoch));
        self.prune_stale_at(now)
    }

    /// Checks and counts one request for `key_id` with the given `limit`, now.
    pub fn check(&mut self, key_id: &str, limit: u64) -> (r: RateLimitResult)
        requires
            old(self).wf(),
        ensures
            final(self).wf(),
            final(self).window_ms == old(self).window_ms,
            exists|now: u64|
                r == spec_outcome(
                    current_bucket(lookup(old(self).buckets@, key_id@), old(self).window_ms, now),
                    old(self).window_ms,
                    limit,
                    now,
                ) && lookup(final(self).buckets@, key_id@) == Some(
                    next_bucket(current_bucket(lookup(old(self).buckets@, key_id@), old(self).window_ms, now), limit),
                ),
            forall|k: Seq<char>| k != key_id@ ==> lookup(final(self).buckets@, k) == lookup(old(self).buckets@, k),
    {
        let now = duration_millis(elapsed_since(&self.epoch));
        self.check_at(key_id, limit, now)
    }
}

} // verus!
