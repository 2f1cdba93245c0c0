//! Token-bucket rate limiter keyed by client.
//!
//! Each key has a bucket that starts full with `max_requests` tokens; a
//! request takes one token, and tokens flow back in proportion to the time
//! since the last refill (`max_requests` per window), never above the
//! maximum.
use vstd::prelude::*;
use dashmap::DashMap;
use std::time::Instant;
use crate::clock::{monotonic_origin, nanos_since};

verus! {

/// The bucket of one key. Times are nanoseconds on the limiter's clock.
#[derive(Debug, Clone, Copy)]
pub struct TokenBucket {
    pub tokens: u64,
    pub last_refill: u64,
}

/// Nanoseconds from `from` to `to`, or zero when `to` is earlier.
pub open spec fn since(from: u64, to: u64) -> int {
    if to >= from { to - from } else { 0 }
}

/// The tokens that flow back after `elapsed` nanoseconds: `max` per window,
/// rounded down.
pub open spec fn refill(elapsed: int, max: u64, window_secs: u64) -> int {
    (elapsed * max) / (window_secs * 1_000_000_000)
}

/// Whether a request is let through at time `now`, and the bucket after it.
/// A key seen for the first time starts with a full bucket.
pub open spec fn check_step(b: Option<TokenBucket>, max: u64, window_secs: u64, now: u64) -> (bool, TokenBucket) {
    let start = match b {
        Some(t) => t,
        None => TokenBucket { tokens: max, last_refill: now },
    };
    let r = refill(since(start.last_refill, now), max, window_secs);
    let filled = if r > 0 {
        TokenBucket { tokens: if start.tokens + r > max { max } else { (start.tokens + r) as u64 }, last_refill: now }
    } else {
        start
    };
    if filled.tokens > 0 {
        (true, TokenBucket { tokens: (filled.tokens - 1) as u64, ..filled })
    } else {
        (false, filled)
    }
}

/// The bucket recorded for `key`, if any.
pub open spec fn bucket_of(m: Map<Seq<char>, TokenBucket>, key: Seq<char>) -> Option<TokenBucket> {
    if m.contains_key(key) { Some(m[key]) } else { None }
}

/// What the limiter's table holds: key to bucket.
pub uninterp spec fn bucket_table(m: DashMap<String, TokenBucket>) -> Map<Seq<char>, TokenBucket>;

/// A table with no buckets.
pub open spec fn no_buckets() -> Map<Seq<char>, TokenBucket> {
    Map::empty()
}

/// `DashMap::new`: an empty table.
#[verifier::external_body]
fn table_new() -> (r: DashMap<String, TokenBucket>)
    ensures
        bucket_table(r) == no_buckets(),
{
    DashMap::new()
}

/// `DashMap::get`, copying the bucket out: the entry for `key`, if any.
#[verifier::external_body]
fn table_get(m: &DashMap<String, TokenBucket>, key: &str) -> (r: Option<TokenBucket>)
    ensures
        r == bucket_of(bucket_table(*m), key@),
{
    m.get(key).map(|e| *e)
}

/// `DashMap::insert`: the entry for `key` becomes `v`, the others stay.
#[verifier::external_body]
fn table_insert(m: &mut DashMap<String, TokenBucket>, key: String, v: TokenBucket)
    ensures
        bucket_table(*final(m)) == bucket_table(*old(m)).insert(key@, v),
{
    m.insert(key, v);
}

/// Simple token-bucket rate limiter keyed by client.
#[derive(Debug)]
pub struct RateLimiter {
    buckets: DashMap<String, TokenBucket>,
    max_requests: u64,
    window_secs: u64,
    origin: Instant,
}

impl RateLimiter {
    pub closed spec fn buckets(&self) -> Map<Seq<char>, TokenBucket> {
        bucket_table(self.buckets)
    }

    pub closed spec fn max(&self) -> u64 {
        self.max_requests
    }

    pub closed spec fn window(&self) -> u64 {
        self.window_secs
    }

    /// Every bucket holds at most the maximum number of tokens, and the
    /// limits are at least one.
    pub open spec fn wf(&self) -> bool {
        &&& self.max() >= 1
        &&& self.window() >= 1
        &&& forall|k: Seq<char>| #[trigger] self.buckets().contains_key(k) ==> self.buckets()[k].tokens <= self.max()
    }

    /// Every limiter is well formed.
    #[verifier::type_invariant]
    spec fn well_formed(&self) -> bool {
        self.wf()
    }

    /// A limiter allowing `max_requests` per `window_secs`; zero limits are
    /// raised to one.
    pub fn new(max_requests: u64, window_secs: u64) -> (r: Self)
        ensures
            r.wf(),
            r.buckets() == no_buckets(),
            r.max() == (if max_requests == 0 { 1 } else { max_requests }),
            r.window() == (if window_secs == 0 { 1 } else { window_secs }),
    {
        RateLimiter {
            buckets: table_new(),
            max_requests: if max_requests == 0 { 1 } else { max_requests },
            window_secs: if window_secs == 0 { 1 } else { window_secs },
            origin: monotonic_origin(),
        }
    }

    /// Takes a token from `key`'s bucket at time `now`, if one is left.
    pub fn check_at(&mut self, key: &str, now: u64) -> (allowed: bool)
        ensures
            final(self).wf(),
            final(self).max() == old(self).max(),
            final(self).window() == old(self).window(),
            allowed == check_step(bucket_of(old(self).buckets(), key@), old(self).max(), old(self).window(), now).0,
            final(self).buckets() == old(self).buckets().insert(key@, check_step(bucket_of(old(self).buckets(), key@), old(self).max(), old(self).window(), now).1),
    {
        proof {
            use_type_invariant(&*self);
        }
        let mut bucket = match table_get(&self.buckets, key) {
            Some(b) => b,
            None => TokenBucket { tokens: self.max_requests, last_refill: now },
        };
        let elapsed: u64 = if now >= bucket.last_refill { now - bucket.last_refill } else { 0 };
        let window_nanos: u128 = (self.window_secs as u128) * 1_000_000_000u128;
        proof {
            assert((elapsed as int) * (self.max_requests as int) <= u64::MAX * u64::MAX) by (nonlinear_arith)
                requires elapsed <= u64::MAX, self.max_requests <= u64::MAX;
            assert(u64::MAX * u64::MAX <= u128::MAX) by (nonlinear_arith);
            assert(window_nanos > 0) by (nonlinear_arith)
                requires window_nanos == (self.window_secs as int) * 1_000_000_000, self.window_secs >= 1;
        }
        let refilled: u128 = (elapsed as u128) * (self.max_requests as u128) / window_nanos;
        if refilled > 0 {
            let total: u128 = (bucket.tokens as u128) + refilled;
            bucket.tokens = if total > self.max_requests as u128 { self.max_requests } else { total as u64 };
            bucket.last_refill = now;
        }
        let allowed = if bucket.tokens > 0 {
            bucket.tokens = bucket.tokens - 1;
            true
        } else {
            false
        };
        let mut buckets = table_new();
        std::mem::swap(&mut buckets, &mut self.buckets);
        table_insert(&mut buckets, key.to_string(), bucket);
        self.buckets = buckets;
        allowed
    }

    /// Takes a token from `key`'s bucket, reading the limiter's clock.
    pub fn check(&mut self, key: &str) -> (allowed: bool)
        ensures
            final(self).wf(),
            final(self).max() == old(self).max(),
            final(self).window() == old(self).window(),
            exists|now: u64| {
                &&& allowed == check_step(bucket_of(old(self).buckets(), key@), old(self).max(), old(self).window(), now).0
                &&& final(self).buckets() == old(self).buckets().insert(key@, check_step(bucket_of(old(self).buckets(), key@), old(self).max(), old(self).window(), now).1)
            },
    {
        let now = nanos_since(&self.origin);
        self.check_at(key, now)
    }
}

/// The outcomes of `n` requests for a key that arrive at the same instant,
/// starting from bucket `b`.
pub open spec fn burst(b: Option<TokenBucket>, max: u64, window_secs: u64, now: u64, n: nat) -> (nat, Option<TokenBucket>)
    decreases n,
{
    if n == 0 {
        (0, b)
    } else {
        let (count, last) = burst(b, max, window_secs, now, (n - 1) as nat);
        let (ok, next) = check_step(last, max, window_secs, now);
        (if ok { count + 1 } else { count }, Some(next))
    }
}

/// A bucket never holds more than the maximum number of tokens.
pub proof fn tokens_never_exceed_max(b: Option<TokenBucket>, max: u64, window_secs: u64, now: u64)
    requires
        window_secs >= 1,
        b matches Some(t) ==> t.tokens <= max,
    ensures
        check_step(b, max, window_secs, now).1.tokens <= max,
{
}

/// A new key gets exactly `max` requests through in a burst: of `n`
/// requests arriving at the same instant, `min(n, max)` are allowed.
pub proof fn fresh_key_burst_is_bounded(max: u64, window_secs: u64, now: u64, n: nat)
    requires
        window_secs >= 1,
    ensures
        burst(None, max, window_secs, now, n).0 == (if n <= max { n } else { max as nat }),
        n >= 1 ==> burst(None, max, window_secs, now, n).1 == Some(TokenBucket { tokens: (if n <= max { max - n } else { 0 }) as u64, last_refill: now }),
    decreases n,
{
    assert(refill(0, max, window_secs) == 0) by (nonlinear_arith)
        requires window_secs >= 1;
    if n > 1 {
        fresh_key_burst_is_bounded(max, window_secs, now, (n - 1) as nat);
        let prev = burst(None, max, window_secs, now, (n - 1) as nat);
        let t: u64 = (if n - 1 <= max { max - (n - 1) } else { 0 }) as u64;
        assert(prev.1 == Some(TokenBucket { tokens: t, last_refill: now }));
        assert(since(now, now) == 0);
        let step = check_step(prev.1, max, window_secs, now);
        if t > 0 {
            assert(step == (true, TokenBucket { tokens: (t - 1) as u64, last_refill: now }));
        } else {
            assert(step == (false, TokenBucket { tokens: t, last_refill: now }));
        }
        assert(burst(None, max, window_secs, now, n) == (if step.0 { prev.0 + 1 } else { prev.0 }, Some(step.1)));
    } else if n == 1 {
        assert(since(now, now) == 0);
        assert(burst(None, max, window_secs, now, 0) == (0nat, None::<TokenBucket>));
    }
}

/// When tokens flow back they are added to those left, up to the maximum:
/// for a bucket with `t.tokens` tokens and `r > 0` tokens flowing back
/// (`max` per window for the nanoseconds since its last refill, rounded
/// down), the request is let through and the bucket keeps
/// `min(max, t.tokens + r) - 1` tokens, refilled as of `now`.
pub proof fn refill_adds_to_tokens_left(t: TokenBucket, max: u64, window_secs: u64, now: u64)
    requires
        window_secs >= 1,
        t.tokens <= max,
        now >= t.last_refill,
        ((now - t.last_refill) * max) / (window_secs * 1_000_000_000) > 0,
    ensures
        ({
            let r = ((now - t.last_refill) * max) / (window_secs * 1_000_000_000);
            let f = if t.tokens + r > max { max as int } else { t.tokens + r };
            check_step(Some(t), max, window_secs, now) == (true, TokenBucket { tokens: (f - 1) as u64, last_refill: now })
        }),
{
    let r = ((now - t.last_refill) * max) / (window_secs * 1_000_000_000);
    assert(since(t.last_refill, now) == now - t.last_refill);
    assert(refill(since(t.last_refill, now), max, window_secs) == r);
    assert(max >= 1) by {
        if max == 0 {
            assert((now - t.last_refill) * max == 0) by (nonlinear_arith)
                requires max == 0;
        }
    }
}

/// Before a whole token has flowed back, a request takes one of the tokens
/// left if there is one, and the bucket keeps its last refill time; with
/// none left it is refused and the bucket stays as it was.
pub proof fn no_refill_takes_one_token(t: TokenBucket, max: u64, window_secs: u64, now: u64)
    requires
        window_secs >= 1,
        now >= t.last_refill,
        ((now - t.last_refill) * max) / (window_secs * 1_000_000_000) == 0,
    ensures
        t.tokens > 0 ==> check_step(Some(t), max, window_secs, now)
            == (true, TokenBucket { tokens: (t.tokens - 1) as u64, last_refill: t.last_refill }),
        t.tokens == 0 ==> check_step(Some(t), max, window_secs, now) == (false, t),
{
    assert(since(t.last_refill, now) == now - t.last_refill);
}

/// Of `n` requests for a key arriving at the same instant, once `r > 0`
/// tokens have flowed back into a bucket holding `t.tokens`, exactly
/// `min(n, min(max, t.tokens + r))` are let through: the tokens left before
/// the refill are not lost.
pub proof fn refilled_burst_counts_tokens_left(t: TokenBucket, max: u64, window_secs: u64, now: u64, n: nat)
    requires
        window_secs >= 1,
        t.tokens <= max,
        now >= t.last_refill,
        ((now - t.last_refill) * max) / (window_secs * 1_000_000_000) > 0,
    ensures
        ({
            let r = ((now - t.last_refill) * max) / (window_secs * 1_000_000_000);
            let f = if t.tokens + r > max { max as int } else { t.tokens + r };
            &&& burst(Some(t), max, window_secs, now, n).0 == (if n <= f { n as int } else { f })
            &&& n >= 1 ==> burst(Some(t), max, window_secs, now, n).1
                == Some(TokenBucket { tokens: (if n <= f { f - n } else { 0 }) as u64, last_refill: now })
        }),
    decreases n,
{
    let r = ((now - t.last_refill) * max) / (window_secs * 1_000_000_000);
    let f = if t.tokens + r > max { max as int } else { t.tokens + r };
    assert(refill(0, max, window_secs) == 0) by (nonlinear_arith)
        requires window_secs >= 1;
    if n == 1 {
        refill_adds_to_tokens_left(t, max, window_secs, now);
        assert(burst(Some(t), max, window_secs, now, 0) == (0nat, Some(t)));
    } else if n > 1 {
        refilled_burst_counts_tokens_left(t, max, window_secs, now, (n - 1) as nat);
        let prev = burst(Some(t), max, window_secs, now, (n - 1) as nat);
        let k: u64 = (if n - 1 <= f { f - (n - 1) } else { 0 }) as u64;
        assert(prev.1 == Some(TokenBucket { tokens: k, last_refill: now }));
        assert(since(now, now) == 0);
        let step = check_step(prev.1, max, window_secs, now);
        if k > 0 {
            assert(step == (true, TokenBucket { tokens: (k - 1) as u64, last_refill: now }));
        } else {
            assert(step == (false, TokenBucket { tokens: k, last_refill: now }));
        }
        assert(burst(Some(t), max, window_secs, now, n) == (if step.0 { prev.0 + 1 } else { prev.0 }, Some(step.1)));
    }
}

/// An empty bucket refuses requests until a full refill share of time has
/// passed since its last refill.
pub proof fn empty_bucket_refuses_until_refill(t: TokenBucket, max: u64, window_secs: u64, now: u64)
    requires
        window_secs >= 1,
        t.tokens == 0,
        refill(since(t.last_refill, now), max, window_secs) == 0,
    ensures
        check_step(Some(t), max, window_secs, now) == (false, t),
{
}

/// The key a request is limited under: the peer's address when it is
/// known, else the request's path.
pub fn client_key(peer: Option<&str>, path: &str) -> (r: String)
    ensures
        peer matches Some(p) ==> r@ == p@,
        peer is None ==> r@ == path@,
{
    match peer {
        Some(p) => p.to_string(),
        None => path.to_string(),
    }
}

} // verus!
