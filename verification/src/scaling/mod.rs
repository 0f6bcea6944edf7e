//! The monitor that tunes the CPU shares of the process to the load of the host.

pub mod probes;

use vstd::prelude::*;

use crate::config::Limits;

verus! {

/// A host load, as the bits of an IEEE 754 double.
#[derive(Debug, Clone, Copy, PartialEq, Eq, Structural)]
pub struct Load {
    pub bits: u64,
}

/// The bit that makes a double negative.
pub const SIGN_BIT: u64 = 0x8000_0000_0000_0000;

/// The bits of positive infinity. Greater magnitudes are not numbers.
pub const INFINITY_BITS: u64 = 0x7ff0_0000_0000_0000;

/// 0.80.
pub const HIGH_LOAD_BITS: u64 = 0x3fe9_9999_9999_999a;

/// 0.20.
pub const LOW_LOAD_BITS: u64 = 0x3fc9_9999_9999_999a;

/// Milliseconds between two looks at the load.
pub const POLL_INTERVAL_MS: u64 = 500;

impl Load {
    /// The bits without the sign.
    pub open spec fn magnitude(self) -> int {
        if self.bits < SIGN_BIT {
            self.bits as int
        } else {
            self.bits - SIGN_BIT
        }
    }

    /// The bits stand for a number, or for an infinity.
    pub open spec fn is_number(self) -> bool {
        self.magnitude() <= INFINITY_BITS
    }

    /// Where a number stands in the order of numbers. Both zeros stand at zero.
    pub open spec fn rank(self) -> int {
        if self.bits < SIGN_BIT {
            self.magnitude()
        } else {
            -self.magnitude()
        }
    }

    /// Both are numbers, and this one is not less than `other`.
    pub open spec fn ge(self, other: Load) -> bool {
        self.is_number() && other.is_number() && self.rank() >= other.rank()
    }

    /// The load whose bits are `bits`.
    pub fn from_bits(bits: u64) -> (l: Load)
        ensures
            l.bits == bits,
    {
        Load { bits }
    }

    /// The rank of a number, and nothing for the rest.
    fn position(&self) -> (r: Option<i64>)
        ensures
            r is Some <==> self.is_number(),
            r matches Some(k) ==> k == self.rank(),
    {
        let negative = self.bits >= SIGN_BIT;
        let magnitude: u64 = if negative {
            self.bits - SIGN_BIT
        } else {
            self.bits
        };
        if magnitude > INFINITY_BITS {
            None
        } else if negative {
            Some(-(magnitude as i64))
        } else {
            Some(magnitude as i64)
        }
    }

    /// Whether this load is at least `other`.
    pub fn at_least(&self, other: Load) -> (r: bool)
        ensures
            r == self.ge(other),
    {
        match (self.position(), other.position()) {
            (Some(a), Some(b)) => a >= b,
            _ => false,
        }
    }
}

/// How the monitor reacts to load.
#[derive(Debug, Clone, Copy, PartialEq, Eq, Structural)]
pub struct ScalingPolicy {
    pub min_cpu_shares: u64,
    pub max_cpu_shares: u64,
    pub high_load_threshold: Load,
    pub low_load_threshold: Load,
    pub poll_interval_ms: u64,
}

impl ScalingPolicy {
    /// The policy for `l`.
    pub open spec fn of_limits(l: Limits) -> ScalingPolicy {
        ScalingPolicy {
            min_cpu_shares: l.min_cpu_shares,
            max_cpu_shares: l.max_cpu_shares,
            high_load_threshold: Load { bits: HIGH_LOAD_BITS },
            low_load_threshold: Load { bits: LOW_LOAD_BITS },
            poll_interval_ms: POLL_INTERVAL_MS,
        }
    }

    /// The policy for `l`: step up from a load of 0.80, down from one of 0.20, look twice
    /// a second.
    pub fn from_limits(l: &Limits) -> (p: Self)
        ensures
            p == ScalingPolicy::of_limits(*l),
    {
        ScalingPolicy {
            min_cpu_shares: l.min_cpu_shares,
            max_cpu_shares: l.max_cpu_shares,
            high_load_threshold: Load { bits: HIGH_LOAD_BITS },
            low_load_threshold: Load { bits: LOW_LOAD_BITS },
            poll_interval_ms: POLL_INTERVAL_MS,
        }
    }

    /// A quarter of `distance`, but at least one.
    pub open spec fn step(distance: int) -> int {
        if distance / 4 > 1 {
            distance / 4
        } else {
            1
        }
    }

    /// The shares that follow `current` at `load`: a quarter of the headroom more at high
    /// load, a quarter of the slack less at low load, and the same otherwise.
    pub open spec fn next(self, current: u64, load: Load) -> int {
        if load.ge(self.high_load_threshold) && current < self.max_cpu_shares {
            current + ScalingPolicy::step(self.max_cpu_shares - current)
        } else if self.low_load_threshold.ge(load) && current > self.min_cpu_shares {
            current - ScalingPolicy::step(current - self.min_cpu_shares)
        } else {
            current as int
        }
    }

    /// The shares that follow `current` at `load`.
    pub fn next_shares(&self, current: u64, load: Load) -> (next: u64)
        ensures
            next == self.next(current, load),
    {
        if load.at_least(self.high_load_threshold) && current < self.max_cpu_shares {
            let quarter: u64 = (self.max_cpu_shares - current) / 4;
            if quarter > 1 {
                current + quarter
            } else {
                current + 1
            }
        } else if self.low_load_threshold.at_least(load) && current > self.min_cpu_shares {
            let quarter: u64 = (current - self.min_cpu_shares) / 4;
            if quarter > 1 {
                current - quarter
            } else {
                current - 1
            }
        } else {
            current
        }
    }
}

/// What the monitor has set, whether it has put the least shares into force yet, and
/// whether it is to stop.
#[derive(Debug, Clone, Copy, PartialEq, Eq, Structural)]
pub struct MonitorState {
    pub cpu_shares: u64,
    pub started: bool,
    pub shutdown: bool,
}

impl MonitorState {
    pub fn new(policy: &ScalingPolicy) -> (s: Self)
        ensures
            s == (MonitorState {
                cpu_shares: policy.min_cpu_shares,
                started: false,
                shutdown: false,
            }),
    {
        MonitorState { cpu_shares: policy.min_cpu_shares, started: false, shutdown: false }
    }
}

/// A source of the host's load. It keeps a record of its answers, for contracts to speak
/// of; asking it adds one answer to the record, and nothing else does.
pub trait LoadProbe {
    /// The answers that the probe has given so far. A verified implementation must supply
    /// its own record: no implementation can be shown to add to the default one, which is
    /// there so that ordinary code, for which no record exists, can implement the trait.
    closed spec fn answers(&self) -> Seq<Result<Load, String>> {
        arbitrary()
    }

    /// The load, from zero to one, or what kept the probe from telling it.
    fn load_normalized(&mut self) -> (r: Result<Load, String>)
        ensures
            final(self).answers() == old(self).answers().push(r),
    ;
}

/// Where CPU shares are put into force. It keeps a record of the calls on it, for
/// contracts to speak of; handing it shares adds one call to the record, and nothing else
/// does.
pub trait CpuShareSink {
    /// The calls so far: the shares that were handed over, and the answer to them. A
    /// verified implementation must supply its own record: no implementation can be shown
    /// to add to the default one, which is there so that ordinary code, for which no record
    /// exists, can implement the trait.
    closed spec fn calls(&self) -> Seq<(u64, Result<(), String>)> {
        arbitrary()
    }

    /// Puts `shares` into force, or tells what stood in the way.
    fn set_shares(&mut self, shares: u64) -> (r: Result<(), String>)
        ensures
            final(self).calls() == old(self).calls().push((shares, r)),
    ;
}

/// What one look at the load asks for.
#[derive(Debug)]
pub enum Plan {
    /// The load is not known.
    ProbeFailed { error: String },
    /// The shares stay.
    Keep { load: Load },
    /// The shares change from `current` to `next`.
    Change { load: Load, current: u64, next: u64 },
}

/// What one look at the load came to.
#[derive(Debug)]
pub enum TickOutcome {
    /// The load is not known.
    ProbeFailed { error: String },
    /// The shares stay.
    Unchanged { load: Load },
    /// The sink refused the new shares.
    SinkFailed { load: Load, next: u64, error: String },
    /// The shares changed from `current` to `next`.
    Changed { load: Load, current: u64, next: u64 },
}

/// What comes next in the life of the monitor.
#[derive(Debug)]
pub enum Step {
    /// The monitor was told to stop.
    Stop,
    /// The monitor has looked once and rests for `rest_ms` milliseconds.
    Rest { outcome: TickOutcome, rest_ms: u64 },
}

/// The monitor: a policy at work between a probe and a sink.
pub struct Monitor<L: LoadProbe, S: CpuShareSink> {
    pub policy: ScalingPolicy,
    pub state: MonitorState,
    pub load: L,
    pub sink: S,
}

/// What the shares `current` under `policy` are to become after the probe's `answer`.
pub open spec fn planned(
    policy: ScalingPolicy,
    current: u64,
    answer: Result<Load, String>,
    plan: Plan,
) -> bool {
    match answer {
        Err(e) => plan == (Plan::ProbeFailed { error: e }),
        Ok(load) => {
            let next = policy.next(current, load);
            if next == current {
                plan == (Plan::Keep { load })
            } else {
                plan == (Plan::Change { load, current, next: next as u64 })
            }
        },
    }
}

impl<L: LoadProbe, S: CpuShareSink> Monitor<L, S> {
    /// This monitor has handed the sink the least shares once and done nothing else to
    /// become `after`.
    pub open spec fn floored(&self, after: Self) -> bool {
        &&& after.policy == self.policy
        &&& after.state == (MonitorState { started: true, ..self.state })
        &&& after.load == self.load
        &&& after.sink.calls() == self.sink.calls().push(
            (self.policy.min_cpu_shares, after.sink.calls().last().1),
        )
    }

    /// This monitor has become `after` by putting the least shares into force, unless it
    /// had done so already.
    pub open spec fn begun(&self, after: Self) -> bool {
        if self.state.started {
            after == *self
        } else {
            self.floored(after)
        }
    }

    /// This monitor has looked at the load once, with `outcome`, and become `after`: it
    /// has asked the probe once, and the sink once where the policy changes the shares and
    /// not at all where it does not. The shares move where the sink took the new ones.
    pub open spec fn ticked(&self, outcome: TickOutcome, after: Self) -> bool {
        let current = self.state.cpu_shares;
        let answer = after.load.answers().last();
        &&& after.policy == self.policy
        &&& after.load.answers() == self.load.answers().push(answer)
        &&& match answer {
            Err(error) => {
                &&& outcome == (TickOutcome::ProbeFailed { error })
                &&& after.sink == self.sink
                &&& after.state == self.state
            },
            Ok(load) => {
                let next = self.policy.next(current, load) as u64;
                if next == current {
                    &&& outcome == (TickOutcome::Unchanged { load })
                    &&& after.sink == self.sink
                    &&& after.state == self.state
                } else {
                    let reply = after.sink.calls().last().1;
                    &&& after.sink.calls() == self.sink.calls().push((next, reply))
                    &&& match reply {
                        Ok(_) => {
                            &&& outcome == (TickOutcome::Changed { load, current, next })
                            &&& after.state == (MonitorState { cpu_shares: next, ..self.state })
                        },
                        Err(error) => {
                            &&& outcome == (TickOutcome::SinkFailed { load, next, error })
                            &&& after.state == self.state
                        },
                    }
                }
            },
        }
    }

    /// This monitor has taken a turn, with `step`, and become `after`: it has put the least
    /// shares into force if that was still to do, and then, unless it was told to stop,
    /// looked at the load once.
    pub open spec fn turned(&self, step: Step, after: Self) -> bool {
        exists|floor: Self|
            {
                &&& #[trigger] self.begun(floor)
                &&& match step {
                    Step::Stop => self.state.shutdown && after == floor,
                    Step::Rest { outcome, rest_ms } => {
                        &&& !self.state.shutdown
                        &&& rest_ms == self.policy.poll_interval_ms
                        &&& floor.ticked(outcome, after)
                    },
                }
            }
    }

    /// Puts the least shares into force, so that the sink has a value from the start.
    pub fn start(&mut self) -> (r: Result<(), String>)
        ensures
            old(self).floored(*final(self)),
            r == final(self).sink.calls().last().1,
    {
        self.state.started = true;
        self.sink.set_shares(self.policy.min_cpu_shares)
    }

    /// Decides what the probe's answer asks for.
    pub fn plan(&self, answer: Result<Load, String>) -> (plan: Plan)
        ensures
            planned(self.policy, self.state.cpu_shares, answer, plan),
    {
        match answer {
            Err(error) => Plan::ProbeFailed { error },
            Ok(load) => {
                let current: u64 = self.state.cpu_shares;
                let next: u64 = self.policy.next_shares(current, load);
                if next == current {
                    Plan::Keep { load }
                } else {
                    Plan::Change { load, current, next }
                }
            },
        }
    }

    /// Takes note of what the sink answered to the new shares.
    pub fn settle(&mut self, next: u64, answer: &Result<(), String>)
        ensures
            *final(self) == (Monitor {
                state: MonitorState {
                    cpu_shares: if answer is Ok {
                        next
                    } else {
                        old(self).state.cpu_shares
                    },
                    ..old(self).state
                },
                ..*old(self)
            }),
    {
        match answer {
            Ok(_) => {
                self.state.cpu_shares = next;
            },
            Err(_) => {},
        }
    }

    /// Looks at the load once, and moves the shares if the policy says so.
    pub fn tick(&mut self) -> (outcome: TickOutcome)
        ensures
            old(self).ticked(outcome, *final(self)),
    {
        let reading = self.load.load_normalized();
        match self.plan(reading) {
            Plan::ProbeFailed { error } => TickOutcome::ProbeFailed { error },
            Plan::Keep { load } => TickOutcome::Unchanged { load },
            Plan::Change { load, current, next } => {
                let answer = self.sink.set_shares(next);
                self.settle(next, &answer);
                match answer {
                    Ok(_) => TickOutcome::Changed { load, current, next },
                    Err(error) => TickOutcome::SinkFailed { load, next, error },
                }
            },
        }
    }

    /// Takes one turn. The first one puts the least shares into force, whatever the sink
    /// says to that. Then the monitor stops if told to, and otherwise looks at the load
    /// once and rests.
    pub fn turn(&mut self) -> (step: Step)
        ensures
            old(self).turned(step, *final(self)),
    {
        if !self.state.started {
            let _ = self.start();
        }
        let ghost floor = *self;
        assert(old(self).begun(floor));
        if self.state.shutdown {
            return Step::Stop;
        }
        let outcome = self.tick();
        Step::Rest { outcome, rest_ms: self.policy.poll_interval_ms }
    }
}

/// Shares that are in the policy's range stay in it, whatever the load.
pub proof fn law_shares_stay_in_range(policy: ScalingPolicy, current: u64, load: Load)
    requires
        policy.min_cpu_shares <= current <= policy.max_cpu_shares,
    ensures
        policy.min_cpu_shares <= policy.next(current, load) <= policy.max_cpu_shares,
{
}

/// High load takes the shares up by a quarter of the headroom, by at least one, and
/// never past the maximum.
pub proof fn law_high_load_raises_shares(policy: ScalingPolicy, current: u64, load: Load)
    requires
        load.ge(policy.high_load_threshold),
        current < policy.max_cpu_shares,
    ensures
        current < policy.next(current, load) <= policy.max_cpu_shares,
        policy.max_cpu_shares - current >= 4 ==> policy.next(current, load) - current == (
        policy.max_cpu_shares - current) / 4,
{
}

/// Low load takes the shares down by a quarter of the slack, by at least one, and never
/// past the minimum.
pub proof fn law_low_load_lowers_shares(policy: ScalingPolicy, current: u64, load: Load)
    requires
        policy.low_load_threshold.ge(load),
        !load.ge(policy.high_load_threshold),
        current > policy.min_cpu_shares,
    ensures
        policy.min_cpu_shares <= policy.next(current, load) < current,
        current - policy.min_cpu_shares >= 4 ==> current - policy.next(current, load) == (current
            - policy.min_cpu_shares) / 4,
{
}

/// A load between the thresholds, or one that is not a number, changes nothing.
pub proof fn law_moderate_load_is_inert(policy: ScalingPolicy, current: u64, load: Load)
    requires
        !load.is_number() || (!load.ge(policy.high_load_threshold)
            && !policy.low_load_threshold.ge(load)),
    ensures
        policy.next(current, load) == current,
{
}

/// More load never means fewer shares.
pub proof fn law_shares_grow_with_load(
    policy: ScalingPolicy,
    current: u64,
    less: Load,
    more: Load,
)
    requires
        more.ge(less),
    ensures
        policy.next(current, less) <= policy.next(current, more),
{
}

/// The policy made for any limits never wants to go up and down at once.
pub proof fn law_thresholds_are_apart(limits: Limits, load: Load)
    ensures
        ({
            let policy = ScalingPolicy::of_limits(limits);
            !(load.ge(policy.high_load_threshold) && policy.low_load_threshold.ge(load))
        }),
{
}

/// The shares after `n` looks at the same load.
pub open spec fn shares_after(policy: ScalingPolicy, current: u64, load: Load, n: nat) -> u64
    decreases n,
{
    if n == 0 {
        current
    } else {
        policy.next(shares_after(policy, current, load, (n - 1) as nat), load) as u64
    }
}

proof fn lemma_shares_after_in_range(policy: ScalingPolicy, current: u64, load: Load, n: nat)
    requires
        policy.min_cpu_shares <= current <= policy.max_cpu_shares,
    ensures
        policy.min_cpu_shares <= shares_after(policy, current, load, n) <= policy.max_cpu_shares,
    decreases n,
{
    if n > 0 {
        lemma_shares_after_in_range(policy, current, load, (n - 1) as nat);
    }
}

/// Load that stays high takes the shares to the maximum, and keeps them there.
pub proof fn law_sustained_high_load_reaches_maximum(
    policy: ScalingPolicy,
    current: u64,
    load: Load,
    n: nat,
)
    requires
        policy.min_cpu_shares <= current <= policy.max_cpu_shares,
        load.ge(policy.high_load_threshold),
        !policy.low_load_threshold.ge(load),
        n >= policy.max_cpu_shares - current,
    ensures
        shares_after(policy, current, load, n) == policy.max_cpu_shares,
{
    lemma_climb(policy, current, load, n);
}

proof fn lemma_climb(policy: ScalingPolicy, current: u64, load: Load, n: nat)
    requires
        policy.min_cpu_shares <= current <= policy.max_cpu_shares,
        load.ge(policy.high_load_threshold),
        !policy.low_load_threshold.ge(load),
    ensures
        shares_after(policy, current, load, n) <= policy.max_cpu_shares,
        shares_after(policy, current, load, n) >= current + n || shares_after(
            policy,
            current,
            load,
            n,
        ) == policy.max_cpu_shares,
    decreases n,
{
    lemma_shares_after_in_range(policy, current, load, n);
    if n > 0 {
        lemma_climb(policy, current, load, (n - 1) as nat);
    }
}

/// Load that stays low takes the shares to the minimum, and keeps them there.
pub proof fn law_sustained_low_load_reaches_minimum(
    policy: ScalingPolicy,
    current: u64,
    load: Load,
    n: nat,
)
    requires
        policy.min_cpu_shares <= current <= policy.max_cpu_shares,
        policy.low_load_threshold.ge(load),
        !load.ge(policy.high_load_threshold),
        n >= current - policy.min_cpu_shares,
    ensures
        shares_after(policy, current, load, n) == policy.min_cpu_shares,
{
    lemma_descend(policy, current, load, n);
}

proof fn lemma_descend(policy: ScalingPolicy, current: u64, load: Load, n: nat)
    requires
        policy.min_cpu_shares <= current <= policy.max_cpu_shares,
        policy.low_load_threshold.ge(load),
        !load.ge(policy.high_load_threshold),
    ensures
        shares_after(policy, current, load, n) >= policy.min_cpu_shares,
        shares_after(policy, current, load, n) <= current - n || shares_after(
            policy,
            current,
            load,
            n,
        ) == policy.min_cpu_shares,
    decreases n,
{
    lemma_shares_after_in_range(policy, current, load, n);
    if n > 0 {
        lemma_descend(policy, current, load, (n - 1) as nat);
    }
}

/// Whatever the probe and the sink answer, a tick leaves the shares of a monitor in the
/// policy's range, hands the sink at most one value, which is in that range and not the
/// one in force, and moves the shares only where the sink took that value.
pub proof fn law_tick_keeps_range<L: LoadProbe, S: CpuShareSink>(
    before: Monitor<L, S>,
    outcome: TickOutcome,
    after: Monitor<L, S>,
)
    requires
        before.policy.min_cpu_shares <= before.state.cpu_shares <= before.policy.max_cpu_shares,
        before.ticked(outcome, after),
    ensures
        before.policy.min_cpu_shares <= after.state.cpu_shares <= before.policy.max_cpu_shares,
        after.state.shutdown == before.state.shutdown,
        before.sink.calls().is_prefix_of(after.sink.calls()),
        after.sink.calls().len() <= before.sink.calls().len() + 1,
        forall|i: int|
            before.sink.calls().len() <= i < after.sink.calls().len() ==> {
                let (shares, reply) = #[trigger] after.sink.calls()[i];
                &&& before.policy.min_cpu_shares <= shares <= before.policy.max_cpu_shares
                &&& shares != before.state.cpu_shares
                &&& after.state.cpu_shares == if reply is Ok {
                    shares
                } else {
                    before.state.cpu_shares
                }
            },
        after.sink.calls().len() == before.sink.calls().len() ==> after.state.cpu_shares
            == before.state.cpu_shares,
{
    assert(before.sink.calls() =~= after.sink.calls().take(before.sink.calls().len() as int));
}

/// A probe that fails keeps the sink from being called at all.
pub proof fn law_failed_probe_calls_nothing<L: LoadProbe, S: CpuShareSink>(
    before: Monitor<L, S>,
    outcome: TickOutcome,
    after: Monitor<L, S>,
)
    requires
        before.ticked(outcome, after),
        after.load.answers().last() is Err,
    ensures
        after.sink == before.sink,
        after.state == before.state,
{
}

/// The first thing that a monitor hands the sink is the least shares, and it does so
/// whatever the sink answers. Where it was told to stop before it began, that is the only
/// call, and the probe is never asked.
pub proof fn law_first_turn<L: LoadProbe, S: CpuShareSink>(
    before: Monitor<L, S>,
    step: Step,
    after: Monitor<L, S>,
)
    requires
        !before.state.started,
        before.turned(step, after),
    ensures
        after.state.started,
        after.sink.calls().len() > before.sink.calls().len(),
        after.sink.calls()[before.sink.calls().len() as int].0 == before.policy.min_cpu_shares,
        step is Stop <==> before.state.shutdown,
        before.state.shutdown ==> {
            &&& after.sink.calls().len() == before.sink.calls().len() + 1
            &&& after.load == before.load
            &&& after.state.cpu_shares == before.state.cpu_shares
        },
{
}

/// A monitor that has begun and is told to stop calls neither the probe nor the sink.
pub proof fn law_stopping_calls_nothing<L: LoadProbe, S: CpuShareSink>(
    before: Monitor<L, S>,
    step: Step,
    after: Monitor<L, S>,
)
    requires
        before.state.started,
        before.state.shutdown,
        before.turned(step, after),
    ensures
        step is Stop,
        after == before,
{
}

/// The monitors of `run` follow each other by ticks with the given `outcomes`, at each of
/// which the probe tells `load` and the sink, if it is called, takes what it is handed.
pub open spec fn steady_run<L: LoadProbe, S: CpuShareSink>(
    run: Seq<Monitor<L, S>>,
    outcomes: Seq<TickOutcome>,
    load: Load,
) -> bool {
    &&& run.len() == outcomes.len() + 1
    &&& forall|i: int|
        0 <= i < outcomes.len() ==> {
            let outcome = #[trigger] outcomes[i];
            &&& run[i].ticked(outcome, run[i + 1])
            &&& run[i + 1].load.answers().last() == Ok::<Load, String>(load)
            &&& outcome !is SinkFailed
        }
}

/// The shares along a steady run are those that the policy alone gives.
proof fn lemma_steady_run<L: LoadProbe, S: CpuShareSink>(
    run: Seq<Monitor<L, S>>,
    outcomes: Seq<TickOutcome>,
    load: Load,
    i: int,
)
    requires
        0 <= i < run.len(),
        steady_run(run, outcomes, load),
        run[0].policy.min_cpu_shares <= run[0].state.cpu_shares <= run[0].policy.max_cpu_shares,
    ensures
        run[i].policy == run[0].policy,
        run[i].state.cpu_shares == shares_after(
            run[0].policy,
            run[0].state.cpu_shares,
            load,
            i as nat,
        ),
        run[0].policy.min_cpu_shares <= run[i].state.cpu_shares <= run[0].policy.max_cpu_shares,
    decreases i,
{
    if i > 0 {
        lemma_steady_run(run, outcomes, load, i - 1);
        assert(run[i - 1].ticked(outcomes[i - 1], run[i]));
    }
}

/// While the load stays high and the sink takes what it is handed, each tick takes the
/// shares strictly up until they are at the maximum, which they are after at most as many
/// ticks as they lack shares; from there on no tick calls the sink.
pub proof fn law_steady_high_load<L: LoadProbe, S: CpuShareSink>(
    run: Seq<Monitor<L, S>>,
    outcomes: Seq<TickOutcome>,
    load: Load,
    i: int,
)
    requires
        0 <= i < run.len(),
        steady_run(run, outcomes, load),
        run[0].policy.min_cpu_shares <= run[0].state.cpu_shares <= run[0].policy.max_cpu_shares,
        load.ge(run[0].policy.high_load_threshold),
        !run[0].policy.low_load_threshold.ge(load),
    ensures
        i >= run[0].policy.max_cpu_shares - run[0].state.cpu_shares ==> run[i].state.cpu_shares
            == run[0].policy.max_cpu_shares,
        i + 1 < run.len() && run[i].state.cpu_shares < run[0].policy.max_cpu_shares
            ==> run[i].state.cpu_shares < run[i + 1].state.cpu_shares,
        i + 1 < run.len() && run[i].state.cpu_shares == run[0].policy.max_cpu_shares ==> {
            &&& run[i + 1].state.cpu_shares == run[0].policy.max_cpu_shares
            &&& run[i + 1].sink == run[i].sink
        },
{
    lemma_steady_run(run, outcomes, load, i);
    lemma_climb(run[0].policy, run[0].state.cpu_shares, load, i as nat);
    if i + 1 < run.len() {
        lemma_steady_run(run, outcomes, load, i + 1);
        assert(run[i].ticked(outcomes[i], run[i + 1]));
    }
}

/// While the load stays low and the sink takes what it is handed, each tick takes the
/// shares strictly down until they are at the minimum, which they are after at most as
/// many ticks as they have shares to spare; from there on no tick calls the sink.
pub proof fn law_steady_low_load<L: LoadProbe, S: CpuShareSink>(
    run: Seq<Monitor<L, S>>,
    outcomes: Seq<TickOutcome>,
    load: Load,
    i: int,
)
    requires
        0 <= i < run.len(),
        steady_run(run, outcomes, load),
        run[0].policy.min_cpu_shares <= run[0].state.cpu_shares <= run[0].policy.max_cpu_shares,
        run[0].policy.low_load_threshold.ge(load),
        !load.ge(run[0].policy.high_load_threshold),
    ensures
        i >= run[0].state.cpu_shares - run[0].policy.min_cpu_shares ==> run[i].state.cpu_shares
            == run[0].policy.min_cpu_shares,
        i + 1 < run.len() && run[i].state.cpu_shares > run[0].policy.min_cpu_shares
            ==> run[i].state.cpu_shares > run[i + 1].state.cpu_shares,
        i + 1 < run.len() && run[i].state.cpu_shares == run[0].policy.min_cpu_shares ==> {
            &&& run[i + 1].state.cpu_shares == run[0].policy.min_cpu_shares
            &&& run[i + 1].sink == run[i].sink
        },
{
    lemma_steady_run(run, outcomes, load, i);
    lemma_descend(run[0].policy, run[0].state.cpu_shares, load, i as nat);
    if i + 1 < run.len() {
        lemma_steady_run(run, outcomes, load, i + 1);
        assert(run[i].ticked(outcomes[i], run[i + 1]));
    }
}

/// Loads are ordered as doubles are: the positive ones, infinity among them, by their bits,
/// the negative ones by their bits the other way round, every negative one below every
/// positive one, the two zeros alike; and what is no number is not ordered at all.
pub proof fn law_loads_order_as_doubles(a: Load, b: Load)
    ensures
        a.bits <= 0x7ff0_0000_0000_0000 && b.bits <= 0x7ff0_0000_0000_0000 ==> (a.ge(b) <==> a.bits
            >= b.bits),
        0x8000_0000_0000_0000 <= a.bits <= 0xfff0_0000_0000_0000 && 0x8000_0000_0000_0000 <= b.bits
            <= 0xfff0_0000_0000_0000 ==> (a.ge(b) <==> a.bits <= b.bits),
        a.bits <= 0x7ff0_0000_0000_0000 && 0x8000_0000_0000_0000 <= b.bits
            <= 0xfff0_0000_0000_0000 ==> a.ge(b),
        0x8000_0000_0000_0000 <= a.bits <= 0xfff0_0000_0000_0000 && b.bits
            <= 0x7ff0_0000_0000_0000 ==> (a.ge(b) <==> a.bits == 0x8000_0000_0000_0000 && b.bits
            == 0),
        0x7ff0_0000_0000_0000 < a.bits < 0x8000_0000_0000_0000 || a.bits > 0xfff0_0000_0000_0000
            ==> !a.ge(b),
        0x7ff0_0000_0000_0000 < b.bits < 0x8000_0000_0000_0000 || b.bits > 0xfff0_0000_0000_0000
            ==> !a.ge(b),
{
}

/// The policy for some limits takes its range from them, its thresholds are 0.80 and 0.20,
/// and it looks every half second.
pub proof fn law_policy_of_limits(l: Limits)
    ensures
        ({
            let p = ScalingPolicy::of_limits(l);
            &&& p.min_cpu_shares == l.min_cpu_shares
            &&& p.max_cpu_shares == l.max_cpu_shares
            &&& p.high_load_threshold.bits == 0x3fe9_9999_9999_999a
            &&& p.low_load_threshold.bits == 0x3fc9_9999_9999_999a
            &&& p.poll_interval_ms == 500
        }),
{
}

/// Under the policy for some limits, and with shares in their range: a load of 0.80 or more
/// adds a quarter of what is left up to the maximum, but at least one where anything is
/// left; a load of 0.20 or less takes off a quarter of what is left down to the minimum,
/// but at least one where anything is left; any other load, and what is no number, leaves
/// the shares as they are.
pub proof fn law_shares_follow_load(l: Limits, current: u64, load: Load)
    requires
        l.min_cpu_shares <= current <= l.max_cpu_shares,
    ensures
        ({
            let next = ScalingPolicy::of_limits(l).next(current, load);
            let headroom = l.max_cpu_shares - current;
            let slack = current - l.min_cpu_shares;
            if 0x3fe9_9999_9999_999a <= load.bits <= 0x7ff0_0000_0000_0000 {
                &&& headroom == 0 ==> next == current
                &&& 1 <= headroom < 8 ==> next == current + 1
                &&& headroom >= 8 ==> headroom - 4 < 4 * (next - current) <= headroom
            } else if load.bits <= 0x3fc9_9999_9999_999a || 0x8000_0000_0000_0000 <= load.bits
                <= 0xfff0_0000_0000_0000 {
                &&& slack == 0 ==> next == current
                &&& 1 <= slack < 8 ==> next == current - 1
                &&& slack >= 8 ==> slack - 4 < 4 * (current - next) <= slack
            } else {
                next == current
            }
        }),
{
}

/// The same of any policy, by whether the load reaches a threshold.
pub proof fn law_shares_follow_thresholds(p: ScalingPolicy, current: u64, load: Load)
    ensures
        ({
            let next = p.next(current, load);
            let headroom = p.max_cpu_shares - current;
            let slack = current - p.min_cpu_shares;
            if load.ge(p.high_load_threshold) && headroom > 0 {
                &&& headroom < 8 ==> next == current + 1
                &&& headroom >= 8 ==> headroom - 4 < 4 * (next - current) <= headroom
            } else if p.low_load_threshold.ge(load) && slack > 0 {
                &&& slack < 8 ==> next == current - 1
                &&& slack >= 8 ==> slack - 4 < 4 * (current - next) <= slack
            } else {
                next == current
            }
        }),
{
}

/// One tick of a monitor whose probe tells a load and whose sink takes what it is handed:
/// a load that reaches the high threshold, below the maximum, has the sink called once, with
/// the shares that are then in force, which are more than before; a load that reaches the
/// low threshold, above the minimum, has it called once with less; and otherwise it is not
/// called and nothing changes. The outcome says so.
pub proof fn law_tick_moves_shares<L: LoadProbe, S: CpuShareSink>(
    before: Monitor<L, S>,
    outcome: TickOutcome,
    after: Monitor<L, S>,
    load: Load,
)
    requires
        before.ticked(outcome, after),
        before.policy.min_cpu_shares <= before.state.cpu_shares <= before.policy.max_cpu_shares,
        after.load.answers().last() == Ok::<Load, String>(load),
        outcome !is SinkFailed,
    ensures
        after.load.answers().len() == before.load.answers().len() + 1,
        ({
            let was = before.state.cpu_shares;
            let is = after.state.cpu_shares;
            let calls = before.sink.calls();
            let up = load.ge(before.policy.high_load_threshold) && was
                < before.policy.max_cpu_shares;
            let down = before.policy.low_load_threshold.ge(load) && was
                > before.policy.min_cpu_shares;
            &&& up ==> was < is <= before.policy.max_cpu_shares
            &&& !up && down ==> before.policy.min_cpu_shares <= is < was
            &&& up || down ==> {
                &&& after.sink.calls().len() == calls.len() + 1
                &&& after.sink.calls().take(calls.len() as int) == calls
                &&& after.sink.calls().last().0 == is
                &&& outcome == (TickOutcome::Changed { load, current: was, next: is })
            }
            &&& !up && !down ==> {
                &&& is == was
                &&& after.sink.calls() == calls
                &&& outcome == (TickOutcome::Unchanged { load })
            }
        }),
        after.state.shutdown == before.state.shutdown,
        after.policy == before.policy,
{
    let calls = before.sink.calls();
    assert(after.sink.calls().take(calls.len() as int) =~= calls);
}

/// What a tick comes to where the probe or the sink fails: the shares stay, and the outcome
/// hands the reason on.
pub proof fn law_tick_failures<L: LoadProbe, S: CpuShareSink>(
    before: Monitor<L, S>,
    outcome: TickOutcome,
    after: Monitor<L, S>,
)
    requires
        before.ticked(outcome, after),
    ensures
        after.load.answers().last() matches Err(e) ==> outcome == (TickOutcome::ProbeFailed {
            error: e,
        }) && after.state == before.state && after.sink.calls() == before.sink.calls(),
        outcome matches TickOutcome::SinkFailed { load, next, error } ==> {
            &&& after.load.answers().last() == Ok::<Load, String>(load)
            &&& after.state == before.state
            &&& after.sink.calls() == before.sink.calls().push((next, Err(error)))
        },
        outcome is ProbeFailed ==> after.load.answers().last() is Err,
{
}

/// A monitor that goes on rests as long as its policy says.
pub proof fn law_rests_between_looks<L: LoadProbe, S: CpuShareSink>(
    before: Monitor<L, S>,
    step: Step,
    after: Monitor<L, S>,
)
    requires
        before.turned(step, after),
    ensures
        step matches Step::Rest { outcome, rest_ms } ==> rest_ms == before.policy.poll_interval_ms
            && !before.state.shutdown && after.load.answers().len()
            == before.load.answers().len() + 1,
        step is Stop ==> before.state.shutdown && after.load == before.load,
{
}

/// A plan follows the probe's answer: without a load there is nothing to do but to tell why,
/// with one the shares go where the policy takes them, and stay exactly where it leaves
/// them.
pub proof fn law_plans(
    policy: ScalingPolicy,
    current: u64,
    answer: Result<Load, String>,
    plan: Plan,
)
    requires
        planned(policy, current, answer, plan),
    ensures
        answer matches Err(e) ==> (plan matches Plan::ProbeFailed { error } && error == e),
        answer matches Ok(seen) ==> match plan {
            Plan::ProbeFailed { .. } => false,
            Plan::Keep { load } => load == seen && policy.next(current, seen) == current,
            Plan::Change { load, current: from, next } => load == seen && from == current && next
                != current && next == policy.next(current, seen),
        },
{
}

/// A tick that gets to see a load puts into force what the policy asks for at it. The sink
/// is called where that is a change, once and with those shares, and the tick fails exactly
/// where the sink refuses them.
pub proof fn law_tick_follows_policy<L: LoadProbe, S: CpuShareSink>(
    before: Monitor<L, S>,
    outcome: TickOutcome,
    after: Monitor<L, S>,
    load: Load,
)
    requires
        before.ticked(outcome, after),
        after.load.answers().last() == Ok::<Load, String>(load),
    ensures
        after.load.answers().drop_last() == before.load.answers(),
        ({
            let was = before.state.cpu_shares;
            let asked = before.policy.next(was, load);
            if asked == was {
                &&& outcome == (TickOutcome::Unchanged { load })
                &&& after.sink == before.sink
                &&& after.state.cpu_shares == was
            } else {
                let (shares, reply) = after.sink.calls().last();
                &&& after.sink.calls().drop_last() == before.sink.calls()
                &&& shares == asked
                &&& reply is Ok ==> after.state.cpu_shares == asked && (outcome matches
                    TickOutcome::Changed { load: l, current, next } && l == load && current == was
                    && next == asked)
                &&& reply matches Err(e) ==> after.state.cpu_shares == was && (outcome matches
                    TickOutcome::SinkFailed { load: l, next, error } && l == load && next == asked
                    && error == e)
            }
        }),
        after.state.shutdown == before.state.shutdown,
        after.policy == before.policy,
{
    assert(after.load.answers().drop_last() =~= before.load.answers());
    if before.policy.next(before.state.cpu_shares, load) != before.state.cpu_shares {
        assert(after.sink.calls().drop_last() =~= before.sink.calls());
    }
}

/// The turn of a monitor that goes on is one tick. Where it is the first, the tick comes
/// after the least shares have been handed to the sink, and starts from the same shares.
pub proof fn law_turn_is_a_tick<L: LoadProbe, S: CpuShareSink>(
    before: Monitor<L, S>,
    step: Step,
    after: Monitor<L, S>,
)
    requires
        !before.state.shutdown,
        before.turned(step, after),
    ensures
        step matches Step::Rest { outcome, rest_ms } && {
            &&& rest_ms == before.policy.poll_interval_ms
            &&& before.state.started ==> before.ticked(outcome, after)
            &&& !before.state.started ==> exists|floor: Monitor<L, S>|
                {
                    &&& #[trigger] floor.ticked(outcome, after)
                    &&& floor.policy == before.policy
                    &&& floor.load == before.load
                    &&& floor.state.cpu_shares == before.state.cpu_shares
                    &&& !floor.state.shutdown && floor.state.started
                    &&& floor.sink.calls().drop_last() == before.sink.calls()
                    &&& floor.sink.calls().last().0 == before.policy.min_cpu_shares
                }
        },
{
    let floor = choose|floor: Monitor<L, S>|
        {
            &&& #[trigger] before.begun(floor)
            &&& match step {
                Step::Stop => before.state.shutdown && after == floor,
                Step::Rest { outcome, rest_ms } => {
                    &&& !before.state.shutdown
                    &&& rest_ms == before.policy.poll_interval_ms
                    &&& floor.ticked(outcome, after)
                },
            }
        };
    if !before.state.started {
        assert(floor.sink.calls().drop_last() =~= before.sink.calls());
    }
}

} // verus!
