//! Token-bucket admission control for incoming commands.
//!
//! The bucket holds tokens in thousandths: a capacity of `burst_capacity`
//! tokens is `burst_capacity * 1000` milli-tokens, and every admitted command
//! consumes `1000`.  Refill is linear in elapsed time, `commands_per_second`
//! tokens per second, capped at the burst capacity.  The caller supplies the
//! clock as a millisecond timestamp.

use vstd::prelude::*;

verus! {

/// The changing part of a token bucket: its fill level and the instant it
/// was last brought up to date.
#[verifier::ext_equal]
pub struct BucketModel {
    pub available_milli: int,
    pub last_refill_ms: int,
}

/// A bucket filled to its burst capacity at time `t`.
pub open spec fn full_bucket(burst: int, t: int) -> BucketModel {
    BucketModel { available_milli: burst * 1000, last_refill_ms: t }
}

/// The fill level after bringing the bucket up to date at `now`.
pub open spec fn refilled(cps: int, burst: int, m: BucketModel, now: int) -> int {
    let elapsed = if now > m.last_refill_ms {
        now - m.last_refill_ms
    } else {
        0
    };
    let filled = m.available_milli + elapsed * cps;
    if filled > burst * 1000 {
        burst * 1000
    } else {
        filled
    }
}

/// One non-blocking admission check: refill, then admit and consume a token
/// if a whole one is available.
pub open spec fn check_step(cps: int, burst: int, m: BucketModel, now: int) -> (BucketModel, bool) {
    let avail = refilled(cps, burst, m, now);
    if avail >= 1000 {
        (BucketModel { available_milli: avail - 1000, last_refill_ms: now }, true)
    } else {
        (BucketModel { available_milli: avail, last_refill_ms: now }, false)
    }
}

/// A run of admission checks, all at the same instant, and their verdicts.
pub open spec fn run_checks(cps: int, burst: int, m: BucketModel, now: int, n: nat) -> (
    BucketModel,
    Seq<bool>,
)
    decreases n,
{
    if n == 0 {
        (m, Seq::empty())
    } else {
        let s = check_step(cps, burst, m, now);
        let rest = run_checks(cps, burst, s.0, now, (n - 1) as nat);
        (rest.0, seq![s.1] + rest.1)
    }
}

/// Token-bucket limiter for the command channel.  With `enabled == false`
/// every check is a no-op success.
pub struct CommandRateLimiter {
    pub commands_per_second: u32,
    pub burst_capacity: u32,
    pub enabled: bool,
    pub available_milli: u64,
    pub last_refill_ms: u64,
}

impl View for CommandRateLimiter {
    type V = BucketModel;

    open spec fn view(&self) -> BucketModel {
        BucketModel {
            available_milli: self.available_milli as int,
            last_refill_ms: self.last_refill_ms as int,
        }
    }
}

impl CommandRateLimiter {
    pub open spec fn wf(&self) -> bool {
        &&& self.commands_per_second >= 1
        &&& self.burst_capacity >= 1
        &&& self.available_milli <= self.burst_capacity as int * 1000
    }

    /// A fresh limiter starts with a full bucket.  Zero rates and zero
    /// capacities are ruled out up front: a bucket that can never hold a
    /// whole token would reject every command.
    pub fn new(commands_per_second: u32, burst_capacity: u32, enabled: bool) -> (r: Self)
        requires
            commands_per_second >= 1,
            burst_capacity >= 1,
        ensures
            r.wf(),
            r.commands_per_second == commands_per_second,
            r.burst_capacity == burst_capacity,
            r.enabled == enabled,
            r@ == full_bucket(burst_capacity as int, 0),
    {
        CommandRateLimiter {
            commands_per_second,
            burst_capacity,
            enabled,
            available_milli: burst_capacity as u64 * 1000,
            last_refill_ms: 0,
        }
    }

    /// Non-blocking admission check at time `now_ms`.  Disabled limiters
    /// admit everything without touching the bucket; enabled ones follow
    /// `check_step` exactly.
    pub fn check(&mut self, now_ms: u64) -> (admitted: bool)
        requires
            old(self).wf(),
        ensures
            final(self).wf(),
            final(self).commands_per_second == old(self).commands_per_second,
            final(self).burst_capacity == old(self).burst_capacity,
            final(self).enabled == old(self).enabled,
            !old(self).enabled ==> admitted && final(self)@ == old(self)@,
            old(self).enabled ==> {
                let s = check_step(
                    old(self).commands_per_second as int,
                    old(self).burst_capacity as int,
                    old(self)@,
                    now_ms as int,
                );
                final(self)@ == s.0 && admitted == s.1
            },
    {
        if !self.enabled {
            return true;
        }
        self.refill(now_ms);
        if self.available_milli >= 1000 {
            self.available_milli = self.available_milli - 1000;
            true
        } else {
            false
        }
    }

    /// Blocking acquisition at time `now_ms`: consumes a token, returning
    /// how many milliseconds the caller must wait before acting on it.
    /// Zero means the token was available at once; a positive wait books
    /// the refill that will have accrued by `now_ms + wait`.
    pub fn acquire(&mut self, now_ms: u64) -> (wait_ms: u64)
        requires
            old(self).wf(),
            now_ms <= u64::MAX - 1000,
        ensures
            final(self).wf(),
            final(self).commands_per_second == old(self).commands_per_second,
            final(self).burst_capacity == old(self).burst_capacity,
            final(self).enabled == old(self).enabled,
            !old(self).enabled ==> wait_ms == 0 && final(self)@ == old(self)@,
            old(self).enabled ==> {
                let cps = old(self).commands_per_second as int;
                let burst = old(self).burst_capacity as int;
                let avail = refilled(cps, burst, old(self)@, now_ms as int);
                if avail >= 1000 {
                    wait_ms == 0 && final(self)@ == (BucketModel {
                        available_milli: avail - 1000,
                        last_refill_ms: now_ms as int,
                    })
                } else {
                    {
                        let need = 1000 - avail;
                        let wait = (need + cps - 1) / cps;
                        let topped = if avail + wait * cps > burst * 1000 {
                            burst * 1000
                        } else {
                            avail + wait * cps
                        };
                        &&& wait_ms == wait
                        &&& wait_ms >= 1
                        &&& final(self)@ == (BucketModel {
                            available_milli: topped - 1000,
                            last_refill_ms: now_ms as int + wait,
                        })
                    }
                }
            },
    {
        if !self.enabled {
            return 0;
        }
        self.refill(now_ms);
        if self.available_milli >= 1000 {
            self.available_milli = self.available_milli - 1000;
            0
        } else {
            let cps = self.commands_per_second as u64;
            let need: u64 = 1000 - self.available_milli;
            let wait: u64 = (need + cps - 1) / cps;
            proof {
                lemma_wait_refills(
                    self.available_milli as int,
                    cps as int,
                    self.burst_capacity as int,
                );
                assert(wait as int == (need as int + cps as int - 1) / cps as int);
                assert(wait as int * cps as int <= 1000 * 0xFFFF_FFFF) by (nonlinear_arith)
                    requires
                        0 <= wait as int <= 1000,
                        0 <= cps as int <= 0xFFFF_FFFF,
                ;
            }
            let cap: u64 = self.burst_capacity as u64 * 1000;
            let refill_u128: u128 = self.available_milli as u128 + wait as u128 * cps as u128;
            let topped: u64 = if refill_u128 > cap as u128 {
                cap
            } else {
                refill_u128 as u64
            };
            self.available_milli = topped - 1000;
            self.last_refill_ms = now_ms + wait;
            wait
        }
    }

    /// Brings the bucket up to date at `now_ms`.
    fn refill(&mut self, now_ms: u64)
        requires
            old(self).wf(),
            old(self).enabled,
        ensures
            final(self).wf(),
            final(self).commands_per_second == old(self).commands_per_second,
            final(self).burst_capacity == old(self).burst_capacity,
            final(self).enabled == old(self).enabled,
            final(self).available_milli as int == refilled(
                old(self).commands_per_second as int,
                old(self).burst_capacity as int,
                old(self)@,
                now_ms as int,
            ),
            final(self).last_refill_ms == now_ms,
    {
        let elapsed: u64 = if now_ms > self.last_refill_ms {
            now_ms - self.last_refill_ms
        } else {
            0
        };
        let cap: u64 = self.burst_capacity as u64 * 1000;
        proof {
            assert(elapsed as int * (self.commands_per_second as int) <= 0xFFFF_FFFF_FFFF_FFFF
                * 0xFFFF_FFFF) by (nonlinear_arith)
                requires
                    0 <= elapsed as int <= 0xFFFF_FFFF_FFFF_FFFF,
                    0 <= self.commands_per_second as int <= 0xFFFF_FFFF,
            ;
        }
        let filled: u128 = self.available_milli as u128 + elapsed as u128
            * self.commands_per_second as u128;
        if filled > cap as u128 {
            self.available_milli = cap;
        } else {
            self.available_milli = filled as u64;
        }
        self.last_refill_ms = now_ms;
    }
}

/// Waiting `ceil(need / cps)` milliseconds refills at least `need`
/// milli-tokens, and no more than one refill step past it.
proof fn lemma_wait_refills(avail: int, cps: int, burst: int)
    requires
        cps >= 1,
        0 <= avail < 1000,
    ensures
        ({
            let need = 1000 - avail;
            let wait = (need + cps - 1) / cps;
            &&& 1 <= wait <= 1000
            &&& wait * cps >= need
        }),
{
    let need = 1000 - avail;
    let wait = (need + cps - 1) / cps;
    assert(1 <= wait <= 1000 && wait * cps >= need) by (nonlinear_arith)
        requires
            cps >= 1,
            1 <= need <= 1000,
            wait == (need + cps - 1) / cps,
    ;
}

/// The burst law: starting from a full bucket of capacity `burst` and
/// checking repeatedly at one instant, exactly the first `burst` checks are
/// admitted and every later one is refused.
pub proof fn lemma_burst_capacity(cps: int, burst: int, t: int, n: nat)
    requires
        cps >= 1,
        burst >= 1,
    ensures
        ({
            let r = run_checks(cps, burst, full_bucket(burst, t), t, n);
            &&& r.1.len() == n
            &&& forall|i: int| 0 <= i < n ==> r.1[i] == (i < burst)
        }),
{
    lemma_drain_from(cps, burst, burst, t, n);
}

/// From a bucket holding exactly `k` whole tokens at the current instant,
/// the next `k` same-instant checks succeed and all later ones fail.
proof fn lemma_drain_from(cps: int, burst: int, k: int, t: int, n: nat)
    requires
        cps >= 1,
        burst >= 1,
        0 <= k <= burst,
    ensures
        ({
            let m = BucketModel { available_milli: k * 1000, last_refill_ms: t };
            let r = run_checks(cps, burst, m, t, n);
            &&& r.1.len() == n
            &&& forall|i: int| 0 <= i < n ==> r.1[i] == (i < k)
        }),
    decreases n,
{
    let m = BucketModel { available_milli: k * 1000, last_refill_ms: t };
    if n > 0 {
        let s = check_step(cps, burst, m, t);
        assert(refilled(cps, burst, m, t) == k * 1000);
        if k >= 1 {
            assert(s.0 == (BucketModel {
                available_milli: (k - 1) * 1000,
                last_refill_ms: t,
            }));
            assert(s.1);
            lemma_drain_from(cps, burst, k - 1, t, (n - 1) as nat);
        } else {
            assert(s.0 == m);
            assert(!s.1);
            lemma_drain_from(cps, burst, 0, t, (n - 1) as nat);
        }
    }
}

} // verus!
