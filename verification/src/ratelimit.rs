//! A token bucket per user, kept in a concurrent map of the `dashmap` crate.
//!
//! Each bucket holds at most `max_tokens` tokens and gains `max_tokens` of
//! them every `refill_secs` seconds, counted in whole tokens from the last
//! time it gained any. A request takes one token; with none left it is
//! refused. Time is read in nanoseconds of a monotonic clock that starts when
//! the limiter is made.

use vstd::prelude::*;

use dashmap::DashMap;
use std::time::Instant;

use crate::stats::now;

verus! {

/// Nanoseconds in a second.
pub const NANOS_PER_SEC: u64 = 1_000_000_000;

/// What the map holds: for each user, the tokens left and the clock reading
/// (nanoseconds) at which the bucket last gained tokens.
pub uninterp spec fn bucket_contents(m: DashMap<i64, (u64, u64)>) -> Map<i64, (u64, u64)>;

/// `DashMap::new`: a map with nothing in it.
#[verifier::external_body]
fn buckets_new() -> (r: DashMap<i64, (u64, u64)>)
    ensures
        bucket_contents(r) =~= Map::empty(),
{
    DashMap::new()
}

/// `DashMap::get`, the found value copied out: what the map holds for the key.
#[verifier::external_body]
fn buckets_get(m: &DashMap<i64, (u64, u64)>, k: i64) -> (r: Option<(u64, u64)>)
    ensures
        r == (if bucket_contents(*m).contains_key(k) {
            Some(bucket_contents(*m)[k])
        } else {
            None
        }),
{
    m.get(&k).map(|b| *b)
}

/// `DashMap::insert`: the key now maps to the value, every other key is
/// unchanged.
#[verifier::external_body]
fn buckets_insert(m: &mut DashMap<i64, (u64, u64)>, k: i64, v: (u64, u64))
    ensures
        bucket_contents(*final(m)) == bucket_contents(*old(m)).insert(k, v),
{
    m.insert(k, v);
}

/// `Instant::elapsed` read as whole nanoseconds (`Duration::as_nanos`, cut to
/// 64 bits). Nothing is stated of the time it measures.
#[verifier::external_body]
fn nanos_since(t: &Instant) -> u64 {
    t.elapsed().as_nanos() as u64
}

/// The whole tokens that `elapsed` nanoseconds earn at `max` tokens per
/// `refill_secs` seconds.
pub open spec fn earned(elapsed: int, max: int, refill_secs: int) -> int {
    if refill_secs == 0 {
        0
    } else {
        (elapsed * max) / (refill_secs * NANOS_PER_SEC)
    }
}

/// A bucket after it is topped up at clock reading `now`: when time has
/// passed and it earned at least one token, it gains them (up to `max`) and
/// remembers `now`; otherwise it is unchanged.
pub open spec fn refilled(b: (u64, u64), now: u64, max: u64, refill_secs: u64) -> (u64, u64) {
    if now > b.1 {
        let add = earned(now - b.1, max as int, refill_secs as int);
        if add > 0 {
            (if b.0 + add < max { (b.0 + add) as u64 } else { max }, now)
        } else {
            b
        }
    } else {
        b
    }
}

/// One request against a bucket at clock reading `now`: whether it is let
/// through, and the bucket afterwards.
pub open spec fn consumed(b: (u64, u64), now: u64, max: u64, refill_secs: u64) -> (bool, (u64, u64)) {
    let r = refilled(b, now, max, refill_secs);
    if r.0 > 0 {
        (true, ((r.0 - 1) as u64, r.1))
    } else {
        (false, r)
    }
}

/// The bucket a user starts with: full, last filled now.
pub open spec fn fresh(now: u64, max: u64) -> (u64, u64) {
    (max, now)
}

/// Tops up a bucket (see `refilled`).
fn refill(b: (u64, u64), now: u64, max: u64, refill_secs: u64) -> (r: (u64, u64))
    requires
        b.0 <= max,
    ensures
        r == refilled(b, now, max, refill_secs),
        r.0 <= max,
{
    if now > b.1 {
        let elapsed: u64 = now - b.1;
        let add: u128 = if refill_secs == 0 {
            0
        } else {
            assert((elapsed as int) * (max as int) <= (u64::MAX as int) * (u64::MAX as int)) by (nonlinear_arith);
            assert((refill_secs as int) * (NANOS_PER_SEC as int) <= (u64::MAX as int) * (NANOS_PER_SEC as int))
                by (nonlinear_arith);
            assert((refill_secs as int) * (NANOS_PER_SEC as int) > 0) by (nonlinear_arith)
                requires
                    refill_secs > 0,
            ;
            (elapsed as u128 * max as u128) / (refill_secs as u128 * NANOS_PER_SEC as u128)
        };
        if add > 0 {
            let room: u64 = max - b.0;
            let tokens: u64 = if add < room as u128 {
                b.0 + add as u64
            } else {
                max
            };
            (tokens, now)
        } else {
            b
        }
    } else {
        b
    }
}

/// Limits how often each user may make a request.
pub struct RateLimiter {
    buckets: DashMap<i64, (u64, u64)>,
    epoch: Instant,
    max_tokens: u64,
    refill_secs: u64,
}

impl RateLimiter {
    /// Every user's bucket, as far as one was made.
    pub closed spec fn buckets(&self) -> Map<i64, (u64, u64)> {
        bucket_contents(self.buckets)
    }

    pub closed spec fn max(&self) -> u64 {
        self.max_tokens
    }

    pub closed spec fn period(&self) -> u64 {
        self.refill_secs
    }

    /// No bucket holds more than the limit, and the limit has a period.
    pub open spec fn wf(&self) -> bool {
        &&& (self.period() > 0 || self.max() == 0)
        &&& forall|k: i64| #[trigger] self.buckets().contains_key(k) ==> self.buckets()[k].0 <= self.max()
    }

    /// The bucket a request of `user_id` at clock reading `now` meets.
    pub open spec fn bucket_at(&self, user_id: i64, now: u64) -> (u64, u64) {
        if self.buckets().contains_key(user_id) {
            self.buckets()[user_id]
        } else {
            fresh(now, self.max())
        }
    }

    /// A limiter that lets each user make `max_tokens` requests at once and
    /// earns them back over `refill_secs` seconds. A period of zero is only
    /// allowed with a limit of zero: a full bucket would otherwise earn
    /// unboundedly many tokens at once.
    pub fn new(max_tokens: u64, refill_secs: u64) -> (r: RateLimiter)
        requires
            refill_secs > 0 || max_tokens == 0,
        ensures
            r.wf(),
            r.buckets() == Map::<i64, (u64, u64)>::empty(),
            r.max() == max_tokens,
            r.period() == refill_secs,
    {
        RateLimiter { buckets: buckets_new(), epoch: now(), max_tokens, refill_secs }
    }

    /// A request of `user_id` at clock reading `now` (nanoseconds since the
    /// limiter was made): whether it may go ahead. Its bucket, made full on
    /// the first request, is topped up and loses one token if it has any.
    pub fn check_at(&mut self, user_id: i64, now: u64) -> (r: bool)
        requires
            old(self).wf(),
        ensures
            final(self).wf(),
            final(self).max() == old(self).max(),
            final(self).period() == old(self).period(),
            r == consumed(old(self).bucket_at(user_id, now), now, old(self).max(), old(self).period()).0,
            final(self).buckets() == old(self).buckets().insert(
                user_id,
                consumed(old(self).bucket_at(user_id, now), now, old(self).max(), old(self).period()).1,
            ),
    {
        let b = match buckets_get(&self.buckets, user_id) {
            Some(b) => b,
            None => (self.max_tokens, now),
        };
        let r = refill(b, now, self.max_tokens, self.refill_secs);
        let (ok, next) = if r.0 > 0 {
            (true, (r.0 - 1, r.1))
        } else {
            (false, r)
        };
        buckets_insert(&mut self.buckets, user_id, next);
        proof {
            assert forall|k: i64| #[trigger] self.buckets().contains_key(k) implies self.buckets()[k].0
                <= self.max() by {
                if k != user_id {
                    assert(old(self).buckets().contains_key(k));
                }
            }
        }
        ok
    }

    /// A request of `user_id` now: whether it may go ahead. The clock reading
    /// is not known to proofs; the contract holds for whatever it was.
    pub fn check(&mut self, user_id: i64) -> (r: bool)
        requires
            old(self).wf(),
        ensures
            final(self).wf(),
            final(self).max() == old(self).max(),
            final(self).period() == old(self).period(),
            exists|now: u64|
                {
                    &&& r == consumed(old(self).bucket_at(user_id, now), now, old(self).max(), old(self).period()).0
                    &&& final(self).buckets() == old(self).buckets().insert(
                        user_id,
                        #[trigger] consumed(old(self).bucket_at(user_id, now), now, old(self).max(), old(self).period()).1,
                    )
                },
    {
        let now = nanos_since(&self.epoch);
        self.check_at(user_id, now)
    }
}

/// What `check_at` does: `after` is `before` once a request of `user_id` at
/// clock reading `now` is handled, and `allowed` is the answer it gave.
pub open spec fn checked(before: RateLimiter, after: RateLimiter, user_id: i64, now: u64, allowed: bool) -> bool {
    let c = consumed(before.bucket_at(user_id, now), now, before.max(), before.period());
    &&& after.max() == before.max()
    &&& after.period() == before.period()
    &&& allowed == c.0
    &&& after.buckets() == before.buckets().insert(user_id, c.1)
}

/// Request `k` of a run: the limiter goes from `states[k]` to
/// `states[k + 1]` on a request of `user_id` at `times[k]`, answered
/// `results[k]`.
pub open spec fn checked_at(
    states: Seq<RateLimiter>,
    user_id: i64,
    times: Seq<u64>,
    results: Seq<bool>,
    k: int,
) -> bool {
    checked(states[k], states[k + 1], user_id, times[k], results[k])
}

/// Tokens spent after `k` requests within the first refill period.
pub open spec fn spent(k: int, max: u64) -> int {
    if k < max {
        k
    } else {
        max as int
    }
}

proof fn lemma_burst_prefix(states: Seq<RateLimiter>, user_id: i64, times: Seq<u64>, results: Seq<bool>, k: int)
    requires
        states.len() == times.len() + 1,
        results.len() == times.len(),
        times.len() > 0,
        !states[0].buckets().contains_key(user_id),
        states[0].max() >= 1,
        states[0].period() >= 1,
        forall|j: int| 0 <= j < times.len() ==> #[trigger] checked_at(states, user_id, times, results, j),
        forall|j: int|
            0 <= j < times.len() ==> (#[trigger] times[j] - times[0]) * states[0].max() < states[0].period()
                * NANOS_PER_SEC,
        0 <= k <= times.len(),
    ensures
        states[k].max() == states[0].max(),
        states[k].period() == states[0].period(),
        states[k].buckets().remove(user_id) == states[0].buckets().remove(user_id),
        k > 0 ==> states[k].buckets().contains_key(user_id),
        k > 0 ==> states[k].buckets()[user_id] == ((states[0].max() - spent(k, states[0].max())) as u64, times[0]),
        forall|j: int| 0 <= j < k ==> #[trigger] results[j] == (j < states[0].max()),
    decreases k,
{
    if k > 0 {
        let i = k - 1;
        lemma_burst_prefix(states, user_id, times, results, i);
        assert(checked_at(states, user_id, times, results, i));
        let max = states[0].max();
        let period = states[0].period();
        let b = states[i].bucket_at(user_id, times[i]);
        assert(b == ((max - spent(i, max)) as u64, times[0]));
        if times[i] > times[0] {
            let x = (times[i] - times[0]) * max;
            let d = period * NANOS_PER_SEC;
            assert((times[i] - times[0]) * max >= 0) by (nonlinear_arith)
                requires
                    times[i] > times[0],
                    max >= 1,
            ;
            assert(x < d);
            vstd::arithmetic::div_mod::lemma_basic_div(x, d);
            assert(earned(times[i] - times[0], max as int, period as int) == 0);
        }
        assert(refilled(b, times[i], max, period) == b);
        assert(states[k].buckets().remove(user_id) =~= states[i].buckets().remove(user_id));
    }
}

/// A burst within one refill period: a user with no bucket yet makes
/// requests, each less than `period / max` seconds after the first (so no
/// token is earned back). Exactly the first `max` of them are let through
/// and the rest refused, and no other user's bucket changes.
pub proof fn law_burst_within_refill_period(
    states: Seq<RateLimiter>,
    user_id: i64,
    times: Seq<u64>,
    results: Seq<bool>,
)
    requires
        states.len() == times.len() + 1,
        results.len() == times.len(),
        times.len() > 0,
        !states[0].buckets().contains_key(user_id),
        states[0].max() >= 1,
        states[0].period() >= 1,
        forall|k: int| 0 <= k < times.len() ==> #[trigger] checked_at(states, user_id, times, results, k),
        forall|k: int|
            0 <= k < times.len() ==> (#[trigger] times[k] - times[0]) * states[0].max() < states[0].period()
                * NANOS_PER_SEC,
    ensures
        forall|k: int| 0 <= k < times.len() ==> #[trigger] results[k] == (k < states[0].max()),
        states.last().buckets().remove(user_id) == states[0].buckets().remove(user_id),
{
    lemma_burst_prefix(states, user_id, times, results, times.len() as int);
}

/// A user's first request is let through whenever the limit is above zero.
pub proof fn law_first_request_allowed(l: RateLimiter, user_id: i64, now: u64)
    requires
        l.wf(),
        !l.buckets().contains_key(user_id),
        l.max() > 0,
    ensures
        consumed(l.bucket_at(user_id, now), now, l.max(), l.period()).0,
{
}

/// With no time passed since a bucket last gained tokens, a request goes
/// ahead exactly when a token is left, and takes exactly one.
pub proof fn law_no_refill_without_time(b: (u64, u64), max: u64, refill_secs: u64)
    requires
        b.0 <= max,
    ensures
        consumed(b, b.1, max, refill_secs).0 <==> b.0 > 0,
        b.0 > 0 ==> consumed(b, b.1, max, refill_secs).1 == ((b.0 - 1) as u64, b.1),
        b.0 == 0 ==> consumed(b, b.1, max, refill_secs).1 == b,
{
}

/// A bucket never holds more than the limit, whatever the clock says.
pub proof fn law_bucket_bounded(b: (u64, u64), now: u64, max: u64, refill_secs: u64)
    requires
        b.0 <= max,
    ensures
        refilled(b, now, max, refill_secs).0 <= max,
        consumed(b, now, max, refill_secs).1.0 <= max,
{
}

/// A refused request finds its bucket empty after the top-up, and takes
/// nothing from it.
pub proof fn law_refused_leaves_bucket(b: (u64, u64), now: u64, max: u64, refill_secs: u64)
    requires
        b.0 <= max,
        !consumed(b, now, max, refill_secs).0,
    ensures
        consumed(b, now, max, refill_secs).1 == refilled(b, now, max, refill_secs),
        refilled(b, now, max, refill_secs).0 == 0,
{
}

} // verus!
