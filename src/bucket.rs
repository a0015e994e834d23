//! A token-bucket rate limiter with lazy, on-demand refill.
//!
//! The bucket keeps its clock marker as a millisecond reading relative to the
//! instant it was created. Every operation that looks at the clock comes in
//! two forms: one that takes the reading as an argument (`*_at`), and whose
//! result is fixed by its arguments, and one that reads tokio's monotonic
//! clock itself and then does the same work.
use tokio::time::Instant;
use vstd::prelude::*;

verus! {

#[verifier::external_type_specification]
#[verifier::external_body]
pub struct ExInstant(Instant);

/// Relies on tokio::time::Instant::now: a reading of the monotonic clock.
/// Nothing is promised of the value itself.
#[verifier::external_body]
fn clock_now() -> (r: Instant) {
    Instant::now()
}

/// Relies on tokio::time::Instant::elapsed: whole milliseconds between
/// `origin` and now. The value depends on the time of the call, so nothing is
/// promised of it.
#[verifier::external_body]
fn millis_since(origin: &Instant) -> (r: u64) {
    origin.elapsed().as_millis() as u64
}

/// The abstract state of a bucket.
pub struct BucketView {
    /// The most tokens that a refill leaves in the bucket.
    pub capacity: nat,
    /// Milliseconds that it takes to earn one token.
    pub period: nat,
    /// Tokens currently held.
    pub tokens: nat,
    /// Clock reading (milliseconds since the bucket's origin) of the last refill.
    pub last_refill: nat,
}

/// Whole refill periods that lie between the last refill and `now`.
pub open spec fn increments(v: BucketView, now: nat) -> nat {
    if now >= v.last_refill && v.period > 0 {
        ((now - v.last_refill) as nat) / v.period
    } else {
        0
    }
}

/// The state after a lazy refill at clock reading `now`. When no whole
/// period has passed, nothing changes, so the partial period is not lost.
pub open spec fn refilled(v: BucketView, now: nat) -> BucketView {
    let inc = increments(v, now);
    if inc == 0 {
        v
    } else {
        BucketView {
            tokens: if v.tokens + inc <= v.capacity { v.tokens + inc } else { v.capacity },
            last_refill: now,
            ..v
        }
    }
}

/// What an attempt to take `cnt` tokens at clock reading `now` returns: the
/// deficit `cnt - available` when there are too few.
pub open spec fn take_result(v: BucketView, now: nat, cnt: nat) -> Result<(), nat> {
    let r = refilled(v, now);
    if r.tokens < cnt {
        Err((cnt - r.tokens) as nat)
    } else {
        Ok(())
    }
}

/// The state after an attempt to take `cnt` tokens at clock reading `now`.
pub open spec fn after_take(v: BucketView, now: nat, cnt: nat) -> BucketView {
    let r = refilled(v, now);
    if r.tokens < cnt {
        r
    } else {
        BucketView { tokens: (r.tokens - cnt) as nat, ..r }
    }
}

/// The state after a sequence of attempts, each given as (clock reading, count).
pub open spec fn after_takes(v: BucketView, calls: Seq<(nat, nat)>) -> BucketView
    decreases calls.len(),
{
    if calls.len() == 0 {
        v
    } else {
        after_takes(after_take(v, calls[0].0, calls[0].1), calls.drop_first())
    }
}

/// A token bucket shared by the tasks that scrape one source.
pub struct AsyncBucket {
    rate_ms: u64,
    ctr_limit: usize,
    ctr: usize,
    last_ms: u64,
    origin: Instant,
}

impl View for AsyncBucket {
    type V = BucketView;

    closed spec fn view(&self) -> BucketView {
        BucketView {
            capacity: self.ctr_limit as nat,
            period: self.rate_ms as nat,
            tokens: self.ctr as nat,
            last_refill: self.last_ms as nat,
        }
    }
}

impl AsyncBucket {
    /// The bucket is well formed when its refill period is not zero.
    pub closed spec fn wf(&self) -> bool {
        self.rate_ms > 0
    }

    /// An empty bucket that earns one token every `rate_ms` milliseconds and
    /// holds at most `limit`.
    pub fn new(rate_ms: u64, limit: usize) -> (r: Self)
        requires
            rate_ms > 0,
        ensures
            r.wf(),
            r@.capacity == limit,
            r@.period == rate_ms,
            r@.tokens == 0,
            r@.last_refill == 0,
    {
        AsyncBucket { rate_ms, ctr_limit: limit, ctr: 0, last_ms: 0, origin: clock_now() }
    }

    /// The same bucket, seeded with `init_ctr` tokens and with its refill
    /// clock restarted now. The seed may exceed the capacity.
    pub fn init(self, init_ctr: usize) -> (r: Self)
        requires
            self.wf(),
        ensures
            r.wf(),
            r@.capacity == self@.capacity,
            r@.period == self@.period,
            r@.tokens == init_ctr,
    {
        let now = millis_since(&self.origin);
        AsyncBucket { ctr: init_ctr, last_ms: now, ..self }
    }

    /// The most tokens that a refill leaves in the bucket.
    pub fn capacity(&self) -> (r: usize)
        ensures
            r == self@.capacity,
    {
        self.ctr_limit
    }

    /// The number of tokens held, without a refill.
    pub fn available(&self) -> (r: usize)
        ensures
            r == self@.tokens,
    {
        self.ctr
    }

    /// Refills lazily at clock reading `now_ms` and returns the count held.
    pub fn update_at(&mut self, now_ms: u64) -> (r: usize)
        requires
            old(self).wf(),
        ensures
            final(self).wf(),
            final(self)@ == refilled(old(self)@, now_ms as nat),
            r == final(self)@.tokens,
    {
        let inc: u64 = if now_ms >= self.last_ms {
            (now_ms - self.last_ms) / self.rate_ms
        } else {
            0
        };
        if inc == 0 {
            return self.ctr;
        }
        self.last_ms = now_ms;
        if self.ctr >= self.ctr_limit || inc as u128 >= (self.ctr_limit - self.ctr) as u128 {
            self.ctr = self.ctr_limit;
        } else {
            self.ctr = self.ctr + inc as usize;
        }
        self.ctr
    }

    /// Refills lazily by the clock and returns the count held.
    pub fn update(&mut self) -> (r: usize)
        requires
            old(self).wf(),
        ensures
            final(self).wf(),
            exists|now: nat| final(self)@ == refilled(old(self)@, now),
            r == final(self)@.tokens,
    {
        let now = millis_since(&self.origin);
        self.update_at(now)
    }

    /// Refills at clock reading `now_ms`, then takes `cnt` tokens if that
    /// many are held; otherwise takes none and returns the deficit.
    pub fn try_take_at(&mut self, now_ms: u64, cnt: usize) -> (r: Result<(), usize>)
        requires
            old(self).wf(),
        ensures
            final(self).wf(),
            final(self)@ == after_take(old(self)@, now_ms as nat, cnt as nat),
            match r {
                Ok(()) => take_result(old(self)@, now_ms as nat, cnt as nat) == Ok::<(), nat>(()),
                Err(d) => take_result(old(self)@, now_ms as nat, cnt as nat) == Err::<(), nat>(d as nat),
            },
    {
        let cur = self.update_at(now_ms);
        if cur < cnt {
            Err(cnt - cur)
        } else {
            self.ctr = cur - cnt;
            Ok(())
        }
    }

    /// Refills by the clock, then takes `cnt` tokens if that many are held;
    /// otherwise takes none and returns the deficit.
    pub fn try_take(&mut self, cnt: usize) -> (r: Result<(), usize>)
        requires
            old(self).wf(),
        ensures
            final(self).wf(),
            exists|now: nat|
                {
                    &&& final(self)@ == after_take(old(self)@, now, cnt as nat)
                    &&& match r {
                        Ok(()) => take_result(old(self)@, now, cnt as nat) == Ok::<(), nat>(()),
                        Err(d) => take_result(old(self)@, now, cnt as nat) == Err::<(), nat>(
                            d as nat,
                        ),
                    }
                },
    {
        let now = millis_since(&self.origin);
        self.try_take_at(now, cnt)
    }

    /// How long a caller short of `deficit` tokens waits before it tries
    /// again: one refill period per missing token, saturated at `u64::MAX`.
    pub fn wait_ms(&self, deficit: usize) -> (r: u64)
        ensures
            r == if self@.period * deficit <= u64::MAX {
                self@.period * deficit
            } else {
                u64::MAX as int
            },
    {
        let d = deficit as u64;
        if d == 0 || self.rate_ms <= u64::MAX / d {
            proof {
                if d > 0 {
                    assert(self.rate_ms * d <= (u64::MAX / d) * d) by (nonlinear_arith)
                        requires
                            self.rate_ms <= u64::MAX / d,
                            d > 0,
                    ;
                    assert((u64::MAX / d) * d <= u64::MAX) by (nonlinear_arith)
                        requires
                            d > 0,
                    ;
                }
            }
            self.rate_ms * d
        } else {
            proof {
                assert(self.rate_ms * d > u64::MAX) by (nonlinear_arith)
                    requires
                        self.rate_ms > u64::MAX / d,
                        d > 0,
                ;
            }
            u64::MAX
        }
    }
}

/// A run of attempts never leaves more tokens than the larger of the
/// starting count and the capacity.
pub proof fn lemma_tokens_never_exceed(v: BucketView, calls: Seq<(nat, nat)>)
    ensures
        after_takes(v, calls).tokens <= if v.tokens <= v.capacity { v.capacity } else { v.tokens },
        after_takes(v, calls).capacity == v.capacity,
    decreases calls.len(),
{
    if calls.len() > 0 {
        let next = after_take(v, calls[0].0, calls[0].1);
        lemma_tokens_never_exceed(next, calls.drop_first());
    }
}

/// A bucket that starts within its capacity stays within it, whatever
/// sequence of attempts is made.
pub proof fn lemma_tokens_within_capacity(v: BucketView, calls: Seq<(nat, nat)>)
    requires
        v.tokens <= v.capacity,
    ensures
        after_takes(v, calls).tokens <= v.capacity,
{
    lemma_tokens_never_exceed(v, calls);
}

} // verus!
