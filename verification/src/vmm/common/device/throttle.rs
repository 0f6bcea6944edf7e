//! Token bucket for I/O.

use std::time::Instant;

use vstd::prelude::*;

verus! {

/// Nanoseconds in a second.
pub const SECOND: u64 = 1_000_000_000;

/// What a caller is told to wait, in nanoseconds, when no refill will ever come: an
/// hour.
pub const STARVED_WAIT: u64 = 3_600_000_000_000;

/// The host's monotonic clock reading. It is compared with later readings only.
#[verifier::external_type_specification]
#[verifier::external_body]
pub struct ExInstant(std::time::Instant);

/// The present moment, by `Instant::now`. Nothing is claimed of it.
#[verifier::external_body]
fn clock_now() -> (t: Instant) {
    Instant::now()
}

/// The nanoseconds that have gone by since `start`, by `Instant::elapsed`. Time
/// decides, so nothing is claimed of the result.
#[verifier::external_body]
fn nanos_since(start: &Instant) -> (nanos: u128) {
    start.elapsed().as_nanos()
}

/// `a / b`, rounded up.
pub open spec fn ceil_div(a: int, b: int) -> int {
    (a + b - 1) / b
}

/// A bucket at one moment. Times are nanoseconds since the bucket was made.
#[verifier::ext_equal]
pub struct BucketState {
    pub capacity: u64,
    pub refill_per_sec: u64,
    pub tokens: u64,
    pub last_refill: u64,
}

impl BucketState {
    /// A bucket holds no more than its capacity.
    pub open spec fn wf(self) -> bool {
        self.tokens <= self.capacity
    }

    /// Whole tokens that the time from the last refill until `now` has earned.
    pub open spec fn earned(self, now: u64) -> nat {
        if now <= self.last_refill {
            0
        } else {
            (((now - self.last_refill) * self.refill_per_sec) / (SECOND as int)) as nat
        }
    }

    /// The bucket after what was earned by `now` has been added, up to its capacity.
    /// A refill starts the clock again; where nothing was earned yet, it keeps
    /// running.
    pub open spec fn refilled(self, now: u64) -> Self {
        let earned = self.earned(now);
        if earned == 0 {
            self
        } else {
            let filled = self.tokens + earned;
            BucketState {
                tokens: if filled <= self.capacity {
                    filled as u64
                } else {
                    self.capacity
                },
                last_refill: now,
                ..self
            }
        }
    }

    /// Whether a request for `n` tokens at `now` is granted.
    pub open spec fn grants(self, n: u64, now: u64) -> bool {
        n <= self.refilled(now).tokens
    }

    /// The first moment at which time has earned the tokens that the bucket lacks for a
    /// request for `n`.
    pub open spec fn due(self, n: u64) -> int {
        self.last_refill + ceil_div((n - self.tokens) * SECOND, self.refill_per_sec as int)
    }

    /// The time, in nanoseconds, that a request for `n` tokens at `now` has to wait once the
    /// bucket is refilled and still short. Where the bucket can hold `n` tokens, this is the
    /// time until the missing ones are due. Where it cannot, no wait is enough, and the time
    /// is the one that earning what is missing takes, rounded down.
    pub open spec fn delay(self, n: u64, now: u64) -> int {
        if n > self.capacity {
            ((n - self.tokens) * SECOND) / (self.refill_per_sec as int)
        } else {
            self.due(n) - now
        }
    }

    /// What a request for `n` tokens at `now` is told to wait once the bucket is refilled
    /// and still short.
    pub open spec fn wait(self, n: u64, now: u64) -> u64 {
        if self.refill_per_sec == 0 {
            STARVED_WAIT
        } else if self.delay(n, now) <= u64::MAX {
            self.delay(n, now) as u64
        } else {
            u64::MAX
        }
    }

    /// The bucket after a request for `n` tokens at `now`.
    pub open spec fn after_request(self, n: u64, now: u64) -> Self {
        let b = self.refilled(now);
        if self.grants(n, now) {
            BucketState { tokens: (b.tokens - n) as u64, ..b }
        } else {
            b
        }
    }

    /// The answer to a request for `n` tokens at `now`.
    pub open spec fn answer(self, n: u64, now: u64) -> Result<(), u64> {
        if self.grants(n, now) {
            Ok(())
        } else {
            Err(self.refilled(now).wait(n, now))
        }
    }
}

/// The clock, asked for the present moment, showed `t`.
pub closed spec fn clock_showed(t: Instant) -> bool {
    call_ensures(clock_now, (), t)
}

/// The moment that the clock's `nanos` stand for; past the end of 64 bits, the last one.
pub open spec fn moment(nanos: u128) -> u64 {
    if nanos <= u64::MAX {
        nanos as u64
    } else {
        u64::MAX
    }
}

/// Token bucket I/O throttler.
///
/// `capacity` is the maximum number of tokens that can be stored (the burst
/// allowance). `refill_per_sec` is the steady-state token generation rate. A caller
/// spends `n` tokens by calling `try_consume(n)`; if the bucket is short, it returns
/// how long the caller should sleep before retrying. The scaling monitor can call
/// `set_rate` at any time to widen or narrow the throttle as part of a burst
/// response.
pub struct TokenBucket {
    capacity: u64,
    refill_per_sec: u64,
    tokens: u64,
    last_refill: u64,
    made: Instant,
}

impl View for TokenBucket {
    type V = BucketState;

    closed spec fn view(&self) -> BucketState {
        BucketState {
            capacity: self.capacity,
            refill_per_sec: self.refill_per_sec,
            tokens: self.tokens,
            last_refill: self.last_refill,
        }
    }
}

impl TokenBucket {
    #[verifier::type_invariant]
    closed spec fn inv(self) -> bool {
        self.tokens <= self.capacity
    }

    /// The reading of the clock from which the bucket's moments count.
    pub closed spec fn made(self) -> Instant {
        self.made
    }

    /// The clock, asked how long ago the bucket was made, tells `nanos`.
    pub closed spec fn clock_tells(self, nanos: u128) -> bool {
        call_ensures(nanos_since, (&self.made,), nanos)
    }

    /// A full bucket.
    pub fn new(capacity: u64, refill_per_sec: u64) -> (b: Self)
        ensures
            b@ == (BucketState { capacity, refill_per_sec, tokens: capacity, last_refill: 0 }),
            clock_showed(b.made()),
    {
        let made = clock_now();
        assert(clock_showed(made));
        TokenBucket { capacity, refill_per_sec, tokens: capacity, last_refill: 0, made }
    }

    /// The most tokens that the bucket can hold.
    pub fn capacity(&self) -> (n: u64)
        ensures
            n == self@.capacity,
    {
        self.capacity
    }

    /// Tokens earned in a second.
    pub fn rate(&self) -> (n: u64)
        ensures
            n == self@.refill_per_sec,
    {
        self.refill_per_sec
    }

    /// Changes how many tokens a second earns, from the last refill on.
    pub fn set_rate(&mut self, refill_per_sec: u64)
        ensures
            final(self)@ == (BucketState { refill_per_sec, ..old(self)@ }),
            final(self).made() == old(self).made(),
    {
        proof {
            use_type_invariant(&*self);
        }
        self.refill_per_sec = refill_per_sec;
    }

    /// Changes how many tokens the bucket can hold; what no longer fits is lost.
    pub fn set_capacity(&mut self, capacity: u64)
        ensures
            final(self)@ == (BucketState {
                capacity,
                tokens: if old(self)@.tokens > capacity {
                    capacity
                } else {
                    old(self)@.tokens
                },
                ..old(self)@
            }),
            final(self).made() == old(self).made(),
    {
        proof {
            use_type_invariant(&*self);
        }
        if self.tokens > capacity {
            self.tokens = capacity;
        }
        self.capacity = capacity;
    }

    /// Tries to consume `n` tokens now. Where the bucket is short, the error is how
    /// many nanoseconds the caller should wait before retrying.
    pub fn try_consume(&mut self, n: u64) -> (r: Result<(), u64>)
        ensures
            exists|nanos: u128|
                {
                    let now = moment(nanos);
                    &&& #[trigger] old(self).clock_tells(nanos)
                    &&& r == old(self)@.answer(n, now)
                    &&& final(self)@ == old(self)@.after_request(n, now)
                },
            final(self).made() == old(self).made(),
    {
        let nanos: u128 = nanos_since(&self.made);
        assert(self.clock_tells(nanos));
        let now: u64 = if nanos <= u64::MAX as u128 {
            nanos as u64
        } else {
            u64::MAX
        };
        self.try_consume_at(n, now)
    }

    /// Tries to consume `n` tokens at `now`, which counts nanoseconds from when the
    /// bucket was made. A moment before the last refill earns nothing.
    pub fn try_consume_at(&mut self, n: u64, now: u64) -> (r: Result<(), u64>)
        ensures
            r == old(self)@.answer(n, now),
            final(self)@ == old(self)@.after_request(n, now),
            final(self).made() == old(self).made(),
            old(self)@.wf(),
    {
        proof {
            use_type_invariant(&*self);
        }
        self.refill(now);
        proof {
            use_type_invariant(&*self);
        }
        if self.tokens >= n {
            self.tokens = self.tokens - n;
            return Ok(());
        }
        if self.refill_per_sec == 0 {
            // No refill will ever land, so the caller backs off rather than spins.
            return Err(STARVED_WAIT);
        }
        let needed: u64 = n - self.tokens;
        let rate: u64 = self.refill_per_sec;
        assert(needed * SECOND <= u64::MAX * SECOND);
        let missing: u128 = needed as u128 * SECOND as u128;
        let wait: u128 = if n > self.capacity {
            missing / (rate as u128)
        } else {
            proof {
                lemma_due_is_ahead(self@, n, now);
                lemma_ceil_div(missing as int, rate as int);
                assert(ceil_div(missing as int, rate as int) <= missing) by (nonlinear_arith)
                    requires
                        rate * (ceil_div(missing as int, rate as int) - 1) < missing,
                        rate >= 1,
                ;
            }
            let steps: u128 = (missing + (rate - 1) as u128) / (rate as u128);
            self.last_refill as u128 + steps - now as u128
        };
        if wait <= u64::MAX as u128 {
            Err(wait as u64)
        } else {
            Err(u64::MAX)
        }
    }

    fn refill(&mut self, now: u64)
        ensures
            final(self)@ == old(self)@.refilled(now),
            final(self).made() == old(self).made(),
    {
        proof {
            use_type_invariant(&*self);
        }
        if now <= self.last_refill {
            return ;
        }
        let nanos: u64 = now - self.last_refill;
        let rate: u64 = self.refill_per_sec;
        assert(nanos * rate <= u64::MAX * u64::MAX) by (nonlinear_arith)
            requires
                nanos <= u64::MAX,
                rate <= u64::MAX,
        ;
        let earned: u128 = (nanos as u128 * rate as u128) / (SECOND as u128);
        if earned > 0 {
            let room: u64 = self.capacity - self.tokens;
            self.tokens =
            if earned <= room as u128 {
                self.tokens + earned as u64
            } else {
                self.capacity
            };
            self.last_refill = now;
        }
    }
}

/// No request and no refill leaves more tokens in a bucket than it can hold.
pub proof fn law_tokens_within_capacity(b: BucketState, n: u64, now: u64)
    requires
        b.wf(),
    ensures
        b.refilled(now).wf(),
        b.refilled(now).capacity == b.capacity,
        b.after_request(n, now).wf(),
        b.after_request(n, now).capacity == b.capacity,
{
}

/// The bucket after the requests in `trace`, each a number of tokens and the moment
/// at which they are asked for.
pub open spec fn after_trace(b: BucketState, trace: Seq<(u64, u64)>) -> BucketState
    decreases trace.len(),
{
    if trace.len() == 0 {
        b
    } else {
        let (n, now) = trace.last();
        after_trace(b, trace.drop_last()).after_request(n, now)
    }
}

/// How many tokens the requests in `trace` were granted, all together.
pub open spec fn granted(b: BucketState, trace: Seq<(u64, u64)>) -> nat
    decreases trace.len(),
{
    if trace.len() == 0 {
        0
    } else {
        let (n, now) = trace.last();
        let before = trace.drop_last();
        granted(b, before) + if after_trace(b, before).grants(n, now) {
            n as nat
        } else {
            0
        }
    }
}

/// Over any run of requests that ends at `until` the bucket grants no more than what
/// it held at the start and what the time since its last refill has earned: the
/// burst allowance and the steady rate.
pub proof fn law_throughput_bound(b: BucketState, trace: Seq<(u64, u64)>, until: u64)
    requires
        b.wf(),
        b.last_refill <= until,
        forall|i: int| 0 <= i < trace.len() ==> (#[trigger] trace[i]).1 <= until,
    ensures
        granted(b, trace) * SECOND <= b.capacity * SECOND + (until - b.last_refill)
            * b.refill_per_sec,
{
    lemma_spent_and_left(b, trace, until);
    let end = after_trace(b, trace);
    let rate = b.refill_per_sec as int;
    assert((end.last_refill - b.last_refill) * rate <= (until - b.last_refill) * rate)
        by (nonlinear_arith)
        requires
            end.last_refill <= until,
            rate >= 0,
    ;
}

proof fn lemma_spent_and_left(b: BucketState, trace: Seq<(u64, u64)>, until: u64)
    requires
        b.last_refill <= until,
        forall|i: int| 0 <= i < trace.len() ==> (#[trigger] trace[i]).1 <= until,
    ensures
        ({
            let end = after_trace(b, trace);
            &&& end.refill_per_sec == b.refill_per_sec
            &&& b.last_refill <= end.last_refill <= until
            &&& (granted(b, trace) + end.tokens) * SECOND <= b.tokens * SECOND + (end.last_refill
                - b.last_refill) * b.refill_per_sec
        }),
    decreases trace.len(),
{
    if trace.len() == 0 {
        assert((b.last_refill - b.last_refill) * b.refill_per_sec == 0) by (nonlinear_arith);
    } else {
        let before = trace.drop_last();
        assert forall|i: int| 0 <= i < before.len() implies (#[trigger] before[i]).1 <= until by {
            assert(before[i] == trace[i]);
        }
        lemma_spent_and_left(b, before, until);
        let mid = after_trace(b, before);
        let (n, now) = trace.last();
        let full = mid.refilled(now);
        assert(now <= until);
        let rate = b.refill_per_sec as int;
        if mid.earned(now) > 0 {
            let span = now - mid.last_refill;
            let e = mid.earned(now) as int;
            assert(e * SECOND <= span * rate) by {
                vstd::arithmetic::div_mod::lemma_fundamental_div_mod(span * rate, SECOND as int);
            }
            assert(full.tokens <= mid.tokens + e);
            assert((now - b.last_refill) * rate == (mid.last_refill - b.last_refill) * rate + span
                * rate) by (nonlinear_arith)
                requires
                    span == now - mid.last_refill,
            ;
        }
    }
}

/// In a bucket with nothing to add at `now`, the tokens that a request lacks are due
/// later than `now`.
proof fn lemma_due_is_ahead(b: BucketState, n: u64, now: u64)
    requires
        b.refill_per_sec > 0,
        b.tokens < n,
        b.earned(now) == 0,
    ensures
        b.due(n) > now,
{
    lemma_due_splits_time(b, n, now);
}

/// Rounding up gives the least factor that takes `b` to `a`.
proof fn lemma_ceil_div(a: int, b: int)
    requires
        b > 0,
    ensures
        b * (ceil_div(a, b) - 1) < a <= b * ceil_div(a, b),
{
    vstd::arithmetic::div_mod::lemma_fundamental_div_mod(a + b - 1, b);
    assert(b * (ceil_div(a, b) - 1) == b * ceil_div(a, b) - b) by (nonlinear_arith);
}

proof fn lemma_ceil_div_is_least(a: int, b: int, c: int)
    requires
        b > 0,
        a <= b * c,
    ensures
        ceil_div(a, b) <= c,
{
    lemma_ceil_div(a, b);
    let q = ceil_div(a, b);
    assert(q <= c) by (nonlinear_arith)
        requires
            b > 0,
            b * (q - 1) < a,
            a <= b * c,
    ;
}

/// Less to earn, or a higher rate to earn it at, takes no more time.
proof fn lemma_ceil_div_monotonic(less: int, more: int, slow: int, fast: int)
    requires
        less <= more,
        0 <= more,
        0 < slow <= fast,
    ensures
        ceil_div(less, fast) <= ceil_div(more, slow),
{
    let q = ceil_div(more, slow);
    lemma_ceil_div(more, slow);
    assert(q >= 0) by (nonlinear_arith)
        requires
            slow > 0,
            0 <= more <= slow * q,
    ;
    assert(slow * q <= fast * q) by (nonlinear_arith)
        requires
            slow <= fast,
            q >= 0,
    ;
    lemma_ceil_div_is_least(less, fast, q);
}

/// The missing tokens are earned from the moment on at which they are due, and not
/// before.
proof fn lemma_due_splits_time(b: BucketState, n: u64, t: u64)
    requires
        b.refill_per_sec > 0,
        b.tokens < n,
    ensures
        b.earned(t) >= n - b.tokens <==> t >= b.due(n),
{
    let rate = b.refill_per_sec as int;
    let needed = (n - b.tokens) * SECOND;
    let steps = ceil_div(needed, rate);
    lemma_ceil_div(needed, rate);
    assert(steps > 0) by (nonlinear_arith)
        requires
            needed > 0,
            rate > 0,
            needed <= rate * steps,
    ;
    if t > b.last_refill {
        let span = t - b.last_refill;
        vstd::arithmetic::div_mod::lemma_fundamental_div_mod(span * rate, SECOND as int);
        if span >= steps {
            assert(rate * steps <= span * rate) by (nonlinear_arith)
                requires
                    steps <= span,
                    rate > 0,
            ;
        } else {
            assert(span * rate <= rate * (steps - 1)) by (nonlinear_arith)
                requires
                    span <= steps - 1,
                    rate > 0,
            ;
        }
    }
}

/// A request that fits the bucket and was refused is granted to a caller who comes back
/// after the wait that it was told, if nobody else was served meanwhile; and it is
/// refused to one who comes back any sooner. The wait is the shortest one.
pub proof fn law_wait_is_the_minimum(b: BucketState, n: u64, now: u64, retry: u64)
    requires
        b.wf(),
        n <= b.capacity,
        b.refill_per_sec > 0,
        b.answer(n, now) matches Err(wait) && wait < u64::MAX,
    ensures
        b.answer(n, now) matches Err(wait) && (b.after_request(n, now).grants(n, retry)
            <==> retry >= now + wait),
{
    let short = b.refilled(now);
    assert(short.earned(now) == 0);
    lemma_due_is_ahead(short, n, now);
    lemma_due_splits_time(short, n, retry);
}

/// A bucket that earns nothing and is short stays short, and says to wait an hour.
pub proof fn law_zero_rate_starves(b: BucketState, n: u64, now: u64, later: u64)
    requires
        b.refill_per_sec == 0,
        n > b.tokens,
    ensures
        b.answer(n, now) == Err::<(), u64>(STARVED_WAIT),
        b.after_request(n, now) == b,
        !b.after_request(n, now).grants(n, later),
{
}

/// A higher rate earns no less.
proof fn lemma_faster_earns_more(slow: BucketState, fast: BucketState, now: u64)
    requires
        fast.last_refill == slow.last_refill,
        slow.refill_per_sec <= fast.refill_per_sec,
    ensures
        slow.earned(now) <= fast.earned(now),
{
    if now > slow.last_refill {
        let span = now - slow.last_refill;
        let r = slow.refill_per_sec as int;
        let f = fast.refill_per_sec as int;
        assert(span * r <= span * f) by (nonlinear_arith)
            requires
                span > 0,
                r <= f,
        ;
        vstd::arithmetic::div_mod::lemma_div_is_ordered(span * r, span * f, SECOND as int);
    }
}

/// A bucket that earned nothing in `span`, where a faster one earned `gained` tokens, still
/// needs longer for all of the missing tokens than the faster one for the rest of them.
proof fn lemma_head_start(missing: int, gained: int, span: int, slow: int, fast: int)
    requires
        0 < slow <= fast,
        0 < span,
        span * slow < SECOND,
        SECOND <= span * fast,
        1 <= gained < missing,
    ensures
        ceil_div((missing - gained) * SECOND, fast) <= ceil_div(missing * SECOND, slow) - span,
{
    let second = SECOND as int;
    let rest = missing - gained;
    assert(rest * second <= fast * ((missing - 1) * span)) by (nonlinear_arith)
        requires
            0 < rest <= missing - 1,
            0 < second <= span * fast,
            0 < span,
            0 < fast,
    ;
    lemma_ceil_div_is_least(rest * second, fast, (missing - 1) * span);
    let q = ceil_div(missing * second, slow);
    lemma_ceil_div(missing * second, slow);
    assert(missing * (span * slow) <= missing * second) by (nonlinear_arith)
        requires
            span * slow < second,
            missing > 0,
    ;
    assert(missing * span <= q) by (nonlinear_arith)
        requires
            missing * (span * slow) <= missing * second,
            missing * second <= slow * q,
            slow > 0,
    ;
    assert((missing - 1) * span == missing * span - span) by (nonlinear_arith);
}

/// Raising the rate of a bucket never lengthens the wait: what was refused before is
/// granted, or told to wait no longer, at whatever moment it is asked for.
pub proof fn law_raising_rate_shortens_wait(b: BucketState, faster: u64, n: u64, now: u64)
    requires
        b.wf(),
        0 < b.refill_per_sec <= faster,
    ensures
        b.answer(n, now) matches Err(slow) ==> match (BucketState {
            refill_per_sec: faster,
            ..b
        }).answer(n, now) {
            Ok(_) => true,
            Err(fast) => fast <= slow,
        },
{
    let c = BucketState { refill_per_sec: faster, ..b };
    lemma_faster_earns_more(b, c, now);
    if b.answer(n, now) is Err && c.answer(n, now) is Err {
        let slow = b.refilled(now);
        let fast = c.refilled(now);
        let r = b.refill_per_sec as int;
        let f = faster as int;
        let more = (n - slow.tokens) * SECOND;
        let less = (n - fast.tokens) * SECOND;
        if n > b.capacity {
            vstd::arithmetic::div_mod::lemma_div_is_ordered(less, more, f);
            vstd::arithmetic::div_mod::lemma_div_is_ordered_by_denominator(more, r, f);
        } else {
            lemma_due_is_ahead(slow, n, now);
            lemma_due_is_ahead(fast, n, now);
            lemma_ceil_div_monotonic(less, more, r, f);
            if b.earned(now) == 0 && c.earned(now) > 0 {
                let span = now - b.last_refill;
                vstd::arithmetic::div_mod::lemma_fundamental_div_mod(span * r, SECOND as int);
                vstd::arithmetic::div_mod::lemma_fundamental_div_mod(span * f, SECOND as int);
                lemma_head_start(n - b.tokens, c.earned(now) as int, span, r, f);
            }
        }
    }
}

/// A request for more than a full bucket can hold is told the same wait at every moment.
pub proof fn law_oversized_wait_is_constant(b: BucketState, n: u64, now: u64)
    requires
        n > b.capacity,
        b.tokens == b.capacity,
        b.refill_per_sec > 0,
    ensures
        b.answer(n, now) == Err::<(), u64>(b.wait(n, 0)),
{
}

/// The later a bucket is refilled, the more it holds.
pub proof fn law_refill_grows_with_time(b: BucketState, now: u64, later: u64)
    requires
        b.wf(),
        now <= later,
    ensures
        b.tokens <= b.refilled(now).tokens <= b.refilled(later).tokens,
{
    let rate = b.refill_per_sec as int;
    if now > b.last_refill {
        let near = now - b.last_refill;
        let far = later - b.last_refill;
        assert(near * rate <= far * rate) by (nonlinear_arith)
            requires
                near <= far,
                rate >= 0,
        ;
        vstd::arithmetic::div_mod::lemma_div_is_ordered(near * rate, far * rate, SECOND as int);
    }
}

/// A moment is the number of nanoseconds that the clock tells, as far as 64 bits go.
pub proof fn law_moments_are_nanoseconds(nanos: u128)
    ensures
        nanos <= u64::MAX ==> moment(nanos) == nanos,
        nanos > u64::MAX ==> moment(nanos) == u64::MAX,
{
}

/// In the time from its last refill to a later moment a bucket earns as many whole tokens
/// as fit: one for each share of a billion nanoseconds that its rate makes. Before its last
/// refill it earns none.
pub proof fn law_earned(b: BucketState, now: u64)
    ensures
        now <= b.last_refill ==> b.earned(now) == 0,
        now > b.last_refill ==> {
            let span = now - b.last_refill;
            b.earned(now) * 1_000_000_000 <= span * b.refill_per_sec < (b.earned(now) + 1)
                * 1_000_000_000
        },
{
    if now > b.last_refill {
        let span = now - b.last_refill;
        let rate = b.refill_per_sec as int;
        assert(span * rate >= 0) by (nonlinear_arith)
            requires
                span > 0,
                rate >= 0,
        ;
        vstd::arithmetic::div_mod::lemma_fundamental_div_mod(span * rate, 1_000_000_000);
    }
}

/// A request is granted exactly where the bucket can hold what it asks for and what it
/// lacks has been earned since the last refill.
pub proof fn law_grants(b: BucketState, n: u64, now: u64)
    requires
        b.wf(),
    ensures
        n <= b.tokens ==> b.grants(n, now),
        n > b.capacity ==> !b.grants(n, now),
        b.tokens < n <= b.capacity && now <= b.last_refill ==> !b.grants(n, now),
        b.tokens < n <= b.capacity && now > b.last_refill ==> (b.grants(n, now) <==> (n - b.tokens)
            * 1_000_000_000 <= (now - b.last_refill) * b.refill_per_sec),
{
    law_earned(b, now);
    let e = b.earned(now);
    if b.tokens < n <= b.capacity && now > b.last_refill {
        let span = (now - b.last_refill) * b.refill_per_sec;
        assert(e >= n - b.tokens <==> (n - b.tokens) * 1_000_000_000 <= span);
    }
}

/// Between two readings of the clock that are `gap` nanoseconds apart, with a refill at the
/// first of them, a bucket earns what its rate earns in that time.
pub proof fn law_time_between_readings(b: BucketState, n: u64, first: u128, gap: u128)
    requires
        b.wf(),
        0 < gap,
        first + gap <= u64::MAX,
        b.last_refill == first,
        b.tokens < n <= b.capacity,
    ensures
        b.grants(n, moment((first + gap) as u128)) <==> (n - b.tokens) * 1_000_000_000 <= gap
            * b.refill_per_sec,
{
    law_moments_are_nanoseconds((first + gap) as u128);
    law_grants(b, n, (first + gap) as u64);
}

/// A request that is granted takes its tokens out of what the bucket holds by then, and one
/// that is refused takes none. Neither changes the capacity or the rate. The last refill is
/// the moment of the request where that has added a token, and the one before otherwise.
pub proof fn law_request_effect(b: BucketState, n: u64, now: u64)
    requires
        b.wf(),
    ensures
        ({
            let after = b.after_request(n, now);
            let filled = b.tokens + b.earned(now);
            let held = if filled <= b.capacity {
                filled
            } else {
                b.capacity as int
            };
            &&& after.capacity == b.capacity && after.refill_per_sec == b.refill_per_sec
            &&& after.tokens == if n <= held {
                held - n
            } else {
                held
            }
            &&& after.last_refill == if b.earned(now) > 0 {
                now
            } else {
                b.last_refill
            }
            &&& b.answer(n, now) is Ok <==> n <= held
        }),
{
}

/// What a refused request above the capacity is told to wait: as long as the rate takes to
/// earn what a bucket filled to what it holds lacks, in whole nanoseconds, and no less than
/// that but for the last fraction.
pub proof fn law_oversized_wait(b: BucketState, n: u64, now: u64)
    requires
        b.wf(),
        n > b.capacity,
        b.refill_per_sec > 0,
    ensures
        b.answer(n, now) matches Err(wait) && {
            let lacking = (n - b.refilled(now).tokens) * 1_000_000_000;
            &&& wait * b.refill_per_sec <= lacking
            &&& wait < u64::MAX ==> lacking < (wait + 1) * b.refill_per_sec
        },
{
    let held = b.refilled(now);
    let lacking = (n - held.tokens) * 1_000_000_000;
    let rate = b.refill_per_sec as int;
    vstd::arithmetic::div_mod::lemma_fundamental_div_mod(lacking, rate);
    let q = lacking / rate;
    let wait = held.wait(n, now) as int;
    assert(q >= 0) by (nonlinear_arith)
        requires
            lacking == rate * q + lacking % rate,
            0 <= lacking % rate < rate,
            lacking >= 0,
            rate > 0,
    ;
    assert(wait <= q);
    assert(wait * rate <= lacking) by (nonlinear_arith)
        requires
            wait <= q,
            lacking == rate * q + lacking % rate,
            0 <= lacking % rate,
            rate > 0,
    ;
    if wait < u64::MAX {
        assert(wait == q);
        assert(lacking < (wait + 1) * rate) by (nonlinear_arith)
            requires
                wait == q,
                lacking == rate * q + lacking % rate,
                lacking % rate < rate,
        ;
    }
}

/// A refused request that is granted at some later moment was told to wait no longer than
/// until then.
pub proof fn law_wait_is_not_too_long(b: BucketState, n: u64, now: u64, retry: u64)
    requires
        b.wf(),
        b.refill_per_sec > 0,
        !b.grants(n, now),
        b.after_request(n, now).grants(n, retry),
    ensures
        n <= b.capacity,
        b.answer(n, now) matches Err(wait) && now + wait <= retry,
{
    let short = b.refilled(now);
    lemma_due_is_ahead(short, n, now);
    lemma_due_splits_time(short, n, retry);
}

/// Without a rate, a request that the bucket cannot serve is told to wait an hour.
pub proof fn law_starved_wait(b: BucketState, n: u64, now: u64)
    requires
        b.refill_per_sec == 0,
    ensures
        b.answer(n, now) == if n <= b.tokens {
            Ok::<(), u64>(())
        } else {
            Err(3_600_000_000_000)
        },
{
}

/// What a refused request that the bucket can hold is told to wait, in numbers: one
/// nanosecond less would not earn what is missing, and the wait does, unless it is the
/// longest that can be told.
pub proof fn law_wait_in_nanoseconds(b: BucketState, n: u64, now: u64)
    requires
        b.wf(),
        n <= b.capacity,
        b.refill_per_sec > 0,
        !b.grants(n, now),
    ensures
        b.answer(n, now) matches Err(wait) && {
            let held = b.refilled(now);
            let lacking = (n - held.tokens) * 1_000_000_000;
            let running = now + wait - held.last_refill;
            &&& wait > 0
            &&& (running - 1) * b.refill_per_sec < lacking
            &&& wait < u64::MAX ==> lacking <= running * b.refill_per_sec
        },
{
    let held = b.refilled(now);
    let rate = b.refill_per_sec as int;
    let lacking = (n - held.tokens) * 1_000_000_000;
    let q = ceil_div(lacking, rate);
    let wait = held.wait(n, now);
    let running = now + wait - held.last_refill;
    lemma_due_is_ahead(held, n, now);
    lemma_ceil_div(lacking, rate);
    assert(running <= q);
    assert((running - 1) * rate < lacking) by (nonlinear_arith)
        requires
            running <= q,
            rate * (q - 1) < lacking,
            rate > 0,
    ;
    if wait < u64::MAX {
        assert(running == q);
        assert(lacking <= running * rate) by (nonlinear_arith)
            requires
                running == q,
                lacking <= rate * q,
        ;
    }
}

} // verus!
