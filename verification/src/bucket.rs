//! Token-bucket rate limiting.
//!
//! Token quantities are held in thousandths of a token ("milli-tokens"),
//! so fractional refill rates can be expressed with integers.  The bucket
//! refills lazily from elapsed wall-clock time at each consumption attempt;
//! there is no background timer.

use vstd::prelude::*;

verus! {

/// Number of milli-tokens in one whole token.
pub const TOKEN_UNIT: u64 = 1000;

/// A per-sender (or global) token bucket.
pub struct TokenBucket {
    /// Current balance, in milli-tokens.
    pub tokens_milli: u64,
    /// Maximum balance, in milli-tokens.
    pub capacity_milli: u64,
    /// Refill rate, in milli-tokens per second.
    pub rate_milli_per_sec: u64,
    /// Time of the last refill, in milliseconds.
    pub last_refill_ms: u64,
}

impl Clone for TokenBucket {
    fn clone(&self) -> (r: TokenBucket)
        ensures
            r == *self,
    {
        TokenBucket {
            tokens_milli: self.tokens_milli,
            capacity_milli: self.capacity_milli,
            rate_milli_per_sec: self.rate_milli_per_sec,
            last_refill_ms: self.last_refill_ms,
        }
    }
}

impl TokenBucket {
    /// The balance never exceeds the capacity.
    pub open spec fn wf(self) -> bool {
        self.tokens_milli <= self.capacity_milli
    }

    /// Balance after a lazy refill at `now_ms`: elapsed time times the rate,
    /// capped at the capacity.  A clock that went backwards refills nothing.
    pub open spec fn spec_refill(self, now_ms: u64) -> int {
        let elapsed: int = if now_ms >= self.last_refill_ms {
            now_ms - self.last_refill_ms
        } else {
            0
        };
        let filled: int = self.tokens_milli + elapsed * self.rate_milli_per_sec / 1000;
        if filled > self.capacity_milli {
            self.capacity_milli as int
        } else {
            filled
        }
    }

    /// The state and grant decision after one consumption attempt at `now_ms`.
    pub open spec fn spec_consume(self, now_ms: u64) -> (TokenBucket, bool) {
        let filled = self.spec_refill(now_ms);
        if filled >= TOKEN_UNIT {
            (
                (TokenBucket {
                    tokens_milli: (filled - TOKEN_UNIT) as u64,
                    capacity_milli: self.capacity_milli,
                    rate_milli_per_sec: self.rate_milli_per_sec,
                    last_refill_ms: now_ms,
                }),
                true,
            )
        } else {
            (
                (TokenBucket {
                    tokens_milli: filled as u64,
                    capacity_milli: self.capacity_milli,
                    rate_milli_per_sec: self.rate_milli_per_sec,
                    last_refill_ms: now_ms,
                }),
                false,
            )
        }
    }

    /// A fresh bucket starts full.
    pub fn new(capacity_milli: u64, rate_milli_per_sec: u64, now_ms: u64) -> (b: TokenBucket)
        ensures
            b.wf(),
            b.tokens_milli == capacity_milli,
            b.capacity_milli == capacity_milli,
            b.rate_milli_per_sec == rate_milli_per_sec,
            b.last_refill_ms == now_ms,
    {
        TokenBucket {
            tokens_milli: capacity_milli,
            capacity_milli,
            rate_milli_per_sec,
            last_refill_ms: now_ms,
        }
    }

    /// Refill from elapsed time, then take one whole token if available.
    /// Returns true exactly when a token was granted; on rejection the
    /// refilled balance is left unchanged.
    pub fn try_consume(&mut self, now_ms: u64) -> (granted: bool)
        requires
            old(self).wf(),
        ensures
            final(self).wf(),
            (*final(self), granted) == old(self).spec_consume(now_ms),
            granted == (old(self).spec_refill(now_ms) >= TOKEN_UNIT),
    {
        let elapsed: u64 = if now_ms >= self.last_refill_ms {
            now_ms - self.last_refill_ms
        } else {
            0
        };
        proof {
            assert((elapsed as int) * (self.rate_milli_per_sec as int) <= (u64::MAX as int) * (
            u64::MAX as int)) by (nonlinear_arith)
                requires
                    elapsed <= u64::MAX,
                    self.rate_milli_per_sec <= u64::MAX,
            ;
        }
        let refill_wide: u128 = (elapsed as u128) * (self.rate_milli_per_sec as u128) / 1000;
        let filled_wide: u128 = (self.tokens_milli as u128) + refill_wide;
        let filled: u64 = if filled_wide > (self.capacity_milli as u128) {
            self.capacity_milli
        } else {
            filled_wide as u64
        };
        self.last_refill_ms = now_ms;
        if filled >= TOKEN_UNIT {
            self.tokens_milli = filled - TOKEN_UNIT;
            true
        } else {
            self.tokens_milli = filled;
            false
        }
    }
}

/// The bucket state and the number of granted tokens after a whole run of
/// consumption attempts at the given times, in order.
pub open spec fn spec_run(b: TokenBucket, times: Seq<u64>) -> (TokenBucket, nat)
    decreases times.len(),
{
    if times.len() == 0 {
        (b, 0nat)
    } else {
        let step = b.spec_consume(times[0]);
        let rest = spec_run(step.0, times.drop_first());
        (rest.0, rest.1 + if step.1 { 1nat } else { 0nat })
    }
}

proof fn lemma_div_superadd(x: int, y: int, d: int)
    requires
        x >= 0,
        y >= 0,
        d > 0,
    ensures
        x / d + y / d <= (x + y) / d,
{
    vstd::arithmetic::div_mod::lemma_fundamental_div_mod(x, d);
    vstd::arithmetic::div_mod::lemma_fundamental_div_mod(y, d);
    let a = x / d;
    let b = y / d;
    let q = a + b;
    assert(d * (a + b) == d * a + d * b) by (nonlinear_arith);
    assert(x + y >= d * q);
    vstd::arithmetic::div_mod::lemma_div_is_ordered(d * q, x + y, d);
    vstd::arithmetic::div_mod::lemma_div_by_multiple(q, d);
}

/// Law: over any ordered run of consumption attempts that all happen no
/// later than `t_end`, the milli-tokens granted never exceed the starting
/// balance plus what the elapsed time up to `t_end` can refill.
pub proof fn lemma_bucket_grant_bound(b: TokenBucket, times: Seq<u64>, t_end: u64)
    requires
        b.wf(),
        forall|i: int| 0 <= i < times.len() ==> #[trigger] times[i] >= b.last_refill_ms,
        forall|i: int, j: int| 0 <= i <= j < times.len() ==> #[trigger] times[i] <= #[trigger] times[j],
        forall|i: int| 0 <= i < times.len() ==> #[trigger] times[i] <= t_end,
        t_end >= b.last_refill_ms,
    ensures
        spec_run(b, times).1 * TOKEN_UNIT <= b.tokens_milli + ((t_end - b.last_refill_ms)
            * b.rate_milli_per_sec) / 1000,
    decreases times.len(),
{
    let r = b.rate_milli_per_sec as int;
    if times.len() == 0 {
        assert((t_end - b.last_refill_ms) * r >= 0) by (nonlinear_arith)
            requires
                t_end >= b.last_refill_ms,
                r >= 0,
        ;
        vstd::arithmetic::div_mod::lemma_div_is_ordered(0, (t_end - b.last_refill_ms) * r, 1000);
    } else {
        let t0 = times[0];
        let step = b.spec_consume(t0);
        let b1 = step.0;
        let rest = times.drop_first();
        assert(forall|i: int| 0 <= i < rest.len() ==> #[trigger] rest[i] == times[i + 1]);
        lemma_bucket_grant_bound(b1, rest, t_end);
        let a1 = t0 - b.last_refill_ms;
        let a2 = t_end - t0;
        assert(a1 * r + a2 * r == (a1 + a2) * r) by (nonlinear_arith);
        lemma_div_superadd(a1 * r, a2 * r, 1000);
        assert(b1.tokens_milli + (if step.1 {
            TOKEN_UNIT as int
        } else {
            0int
        }) <= b.tokens_milli + (a1 * r) / 1000);
    }
}

/// Law: within any interval too short for the refill rate to produce even
/// one milli-token, consumption is granted at most `capacity` whole times.
pub proof fn lemma_bucket_capacity_bound(b: TokenBucket, times: Seq<u64>, t_end: u64)
    requires
        b.wf(),
        forall|i: int| 0 <= i < times.len() ==> #[trigger] times[i] >= b.last_refill_ms,
        forall|i: int, j: int| 0 <= i <= j < times.len() ==> #[trigger] times[i] <= #[trigger] times[j],
        forall|i: int| 0 <= i < times.len() ==> #[trigger] times[i] <= t_end,
        t_end >= b.last_refill_ms,
        ((t_end - b.last_refill_ms) * b.rate_milli_per_sec) / 1000 == 0,
    ensures
        spec_run(b, times).1 <= b.capacity_milli / TOKEN_UNIT,
{
    lemma_bucket_grant_bound(b, times, t_end);
    let g = spec_run(b, times).1;
    assert(g * TOKEN_UNIT <= b.capacity_milli);
    vstd::arithmetic::div_mod::lemma_div_is_ordered(
        g * (TOKEN_UNIT as int),
        b.capacity_milli as int,
        TOKEN_UNIT as int,
    );
    vstd::arithmetic::div_mod::lemma_div_by_multiple(g as int, TOKEN_UNIT as int);
}

} // verus!
