//! Token-bucket rate limiter gating outgoing writes.  Refill is lazy:
//! each acquire first credits the tokens earned since the last call, in
//! proportion to elapsed time, capped at the bucket's capacity; there
//! is no background timer.  The caller supplies the current time, so
//! the arithmetic here is exact and the clock stays at the edge.

use vstd::prelude::*;

verus! {

/// What `acquire_at` does when tokens are short: fail at once, or ask
/// the caller to wait until a deterministic deadline and retry once.
#[derive(Clone, Copy, Debug, PartialEq, Eq, Structural)]
pub enum BlockingStrategy {
    NoBlock,
    Block,
}

/// Outcome of one acquisition attempt.
#[derive(Clone, Copy, Debug, PartialEq, Eq, Structural)]
pub enum Acquire {
    /// The tokens were consumed.
    Granted,
    /// Tokens were short under `NoBlock`; nothing was consumed.
    RateLimited,
    /// Tokens were short under `Block`: wait until the carried time
    /// (same unit as `now`), then retry once.
    WaitUntil(u64),
}

/// Tokens available once `gain` new tokens are credited, capped.
pub open spec fn refill_calc(cap: int, tokens: int, last: int, period: int, now: int) -> int {
    let gain = (now - last) * cap / period;
    if tokens + gain >= cap {
        cap
    } else {
        tokens + gain
    }
}

/// Milliseconds to wait before `need` tokens will have been earned,
/// rounded up.
pub open spec fn wait_calc(need: int, period: int, cap: int) -> int {
    (need * period + cap - 1) / cap
}

/// Capacity, refill period, tokens currently available and the time of
/// the last refill computation.
pub struct RateLimiter {
    capacity: u64,
    period_ms: u64,
    tokens: u64,
    last_ms: u64,
}

impl RateLimiter {
    /// Greatest number of tokens the bucket holds.
    pub closed spec fn capacity(self) -> u64 {
        self.capacity
    }

    /// Time over which a drained bucket refills completely.
    pub closed spec fn period_ms(self) -> u64 {
        self.period_ms
    }

    /// Tokens available as of the last refill computation.
    pub closed spec fn tokens(self) -> u64 {
        self.tokens
    }

    /// When the last refill was computed.
    pub closed spec fn last_ms(self) -> u64 {
        self.last_ms
    }

    /// Tokens never exceed the capacity; capacity and period are positive.
    pub open spec fn wf(self) -> bool {
        self.tokens() <= self.capacity() && self.capacity() >= 1 && self.period_ms() >= 1
    }

    /// Tokens that an acquire at time `now` would find available.
    pub open spec fn refill_spec(self, now: u64) -> int {
        refill_calc(
            self.capacity() as int,
            self.tokens() as int,
            self.last_ms() as int,
            self.period_ms() as int,
            now as int,
        )
    }

    /// A full bucket, last refilled at `now`.
    pub fn full(capacity: u64, period_ms: u64, now: u64) -> (l: RateLimiter)
        requires
            capacity >= 1,
            period_ms >= 1,
        ensures
            l.wf(),
            l.capacity() == capacity,
            l.period_ms() == period_ms,
            l.tokens() == capacity,
            l.last_ms() == now,
    {
        RateLimiter { capacity, period_ms, tokens: capacity, last_ms: now }
    }

    /// Consume `n` tokens at time `now`.  Refill is credited first;
    /// when enough tokens are available they are consumed, otherwise
    /// nothing is consumed and the strategy decides between an
    /// immediate `RateLimited` and a computed wake deadline.
    pub fn acquire_at(&mut self, n: u64, now: u64, strategy: BlockingStrategy) -> (r: Acquire)
        requires
            old(self).wf(),
            now >= old(self).last_ms(),
            n <= old(self).capacity(),
        ensures
            final(self).wf(),
            final(self).capacity() == old(self).capacity(),
            final(self).period_ms() == old(self).period_ms(),
            final(self).last_ms() == now,
            ({
                let avail = old(self).refill_spec(now);
                if avail >= n {
                    r == Acquire::Granted && final(self).tokens() == avail - n
                } else {
                    final(self).tokens() == avail && match strategy {
                        BlockingStrategy::NoBlock => r == Acquire::RateLimited,
                        BlockingStrategy::Block => {
                            let ideal = now + wait_calc(
                                n - avail,
                                old(self).period_ms() as int,
                                old(self).capacity() as int,
                            );
                            r == Acquire::WaitUntil(
                                if ideal > u64::MAX { u64::MAX as u64 } else { ideal as u64 },
                            )
                        },
                    }
                }
            }),
    {
        let elapsed: u64 = now - self.last_ms;
        proof {
            assert((elapsed as int) * (self.capacity as int) < 0x100000000000000000000000000000000)
                by (nonlinear_arith)
                requires
                    elapsed <= 0xffffffffffffffffu64,
                    self.capacity <= 0xffffffffffffffffu64,
            ;
        }
        let gain: u128 = (elapsed as u128) * (self.capacity as u128) / (self.period_ms as u128);
        let avail: u64 = if gain >= (self.capacity - self.tokens) as u128 {
            self.capacity
        } else {
            self.tokens + (gain as u64)
        };
        proof {
            assert(avail == self.refill_spec(now));
        }
        self.last_ms = now;
        if avail >= n {
            self.tokens = avail - n;
            Acquire::Granted
        } else {
            self.tokens = avail;
            match strategy {
                BlockingStrategy::NoBlock => Acquire::RateLimited,
                BlockingStrategy::Block => {
                    let need: u64 = n - avail;
                    proof {
                        assert((need as int) * (self.period_ms as int)
                            <= 0xfffffffffffffffe0000000000000001) by (nonlinear_arith)
                            requires
                                need <= 0xffffffffffffffffu64,
                                self.period_ms <= 0xffffffffffffffffu64,
                        ;
                    }
                    let sum: u128 = (need as u128) * (self.period_ms as u128) + (self.capacity
                        as u128) - 1;
                    let t: u128 = sum / (self.capacity as u128);
                    proof {
                        assert(t <= sum) by (nonlinear_arith)
                            requires
                                self.capacity >= 1,
                                sum >= 0,
                                t == sum / (self.capacity as u128),
                        ;
                    }
                    let d: u128 = (now as u128) + t;
                    let deadline: u64 = if d > u64::MAX as u128 {
                        u64::MAX
                    } else {
                        d as u64
                    };
                    Acquire::WaitUntil(deadline)
                },
            }
        }
    }
}

/// The Block deadline suffices.  Take the limiter as a short
/// Block-acquire leaves it: refill committed at `last_ms`, tokens
/// still short of `n`.  At the wake time it named, the lazy refill
/// finds at least `n` tokens, so the single retry — there is no busy
/// loop — is granted.
pub proof fn lemma_wait_deadline_suffices(l: RateLimiter, n: u64)
    requires
        l.wf(),
        n <= l.capacity(),
        l.tokens() < n,
        l.last_ms() + wait_calc(
            n - l.tokens(),
            l.period_ms() as int,
            l.capacity() as int,
        ) <= u64::MAX,
    ensures
        ({
            let d = l.last_ms() + wait_calc(
                n - l.tokens(),
                l.period_ms() as int,
                l.capacity() as int,
            );
            l.refill_spec(d as u64) >= n
        }),
{
    let cap = l.capacity() as int;
    let period = l.period_ms() as int;
    let avail = l.tokens() as int;
    let need = n - avail;
    let s = need * period + cap - 1;
    let t = s / cap;
    assert(need * period >= 1) by (nonlinear_arith)
        requires
            need >= 1,
            period >= 1,
    ;
    vstd::arithmetic::div_mod::lemma_fundamental_div_mod(s, cap);
    vstd::arithmetic::div_mod::lemma_mod_bound(s, cap);
    assert(cap * t == s - (s % cap));
    assert(cap * t >= need * period);
    assert(t * cap == cap * t) by (nonlinear_arith);
    vstd::arithmetic::div_mod::lemma_div_is_ordered(need * period, t * cap, period);
    assert(need * period == period * need) by (nonlinear_arith);
    vstd::arithmetic::div_mod::lemma_div_multiples_vanish(need, period);
    assert((t * cap) / period >= need);
}

} // verus!
