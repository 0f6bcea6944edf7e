use hyperpod::config::Limits;
use hyperpod::scaling::{
    CpuShareSink, Load, LoadProbe, Monitor, MonitorState, Plan, ScalingPolicy, Step, TickOutcome,
};

fn load(x: f64) -> Load {
    Load::from_bits(x.to_bits())
}

struct ScriptedLoad {
    values: Vec<f64>,
    idx: usize,
}

impl LoadProbe for ScriptedLoad {
    fn load_normalized(&mut self) -> Result<Load, String> {
        let i = self.idx;
        self.idx += 1;
        Ok(load(self.values.get(i).copied().unwrap_or(*self.values.last().unwrap())))
    }
}

struct BrokenProbe;

impl LoadProbe for BrokenProbe {
    fn load_normalized(&mut self) -> Result<Load, String> {
        Err("no load".to_string())
    }
}

struct RecordingSink(Vec<u64>);

impl CpuShareSink for RecordingSink {
    fn set_shares(&mut self, shares: u64) -> Result<(), String> {
        self.0.push(shares);
        Ok(())
    }
}

struct BrokenSink;

impl CpuShareSink for BrokenSink {
    fn set_shares(&mut self, shares: u64) -> Result<(), String> {
        Err(format!("no {shares}"))
    }
}

fn make_policy() -> ScalingPolicy {
    ScalingPolicy {
        min_cpu_shares: 256,
        max_cpu_shares: 2048,
        high_load_threshold: load(0.80),
        low_load_threshold: load(0.20),
        poll_interval_ms: 0,
    }
}

fn monitor(values: Vec<f64>) -> Monitor<ScriptedLoad, RecordingSink> {
    let policy = make_policy();
    Monitor {
        policy,
        state: MonitorState::new(&policy),
        load: ScriptedLoad { values, idx: 0 },
        sink: RecordingSink(Vec::new()),
    }
}

#[test]
fn high_load_increases_cpu_shares() {
    let mut m = monitor(vec![0.95]);
    let before = m.state.cpu_shares;
    m.tick();
    assert_eq!(m.sink.0.len(), 1);
    assert!(m.state.cpu_shares > before);
}

#[test]
fn moderate_load_is_inert() {
    let mut m = monitor(vec![0.5]);
    m.tick();
    assert!(m.sink.0.is_empty());
}

#[test]
fn steps_are_a_quarter_of_the_way() {
    let mut m = monitor(vec![0.80, 0.9, 0.20, 0.1, 0.79]);
    m.tick();
    assert_eq!(m.state.cpu_shares, 256 + (2048 - 256) / 4);
    m.tick();
    assert_eq!(m.state.cpu_shares, 704 + 336);
    m.tick();
    assert_eq!(m.state.cpu_shares, 1040 - 196);
    m.tick();
    assert_eq!(m.state.cpu_shares, 844 - 147);
    match m.tick() {
        TickOutcome::Unchanged { load: l } => assert_eq!(l, load(0.79)),
        _ => panic!("expected no change"),
    }
    assert_eq!(m.sink.0, vec![704, 1040, 844, 697]);
}

#[test]
fn shares_reach_the_ends_and_stay() {
    let mut up = monitor(vec![1.0]);
    for _ in 0..100 {
        up.tick();
    }
    assert_eq!(up.state.cpu_shares, 2048);
    let sets = up.sink.0.len();
    up.tick();
    assert_eq!(up.sink.0.len(), sets);
    let mut down = monitor(vec![0.0]);
    down.state.cpu_shares = 2048;
    for _ in 0..100 {
        down.tick();
    }
    assert_eq!(down.state.cpu_shares, 256);
}

#[test]
fn loads_compare_as_doubles_do() {
    let xs = [
        0.0,
        -0.0,
        f64::MIN_POSITIVE,
        5e-324,
        -5e-324,
        0.2,
        0.8,
        1.0,
        -1.0,
        f64::MAX,
        f64::MIN,
        f64::INFINITY,
        f64::NEG_INFINITY,
        f64::NAN,
        -f64::NAN,
    ];
    for a in xs {
        for b in xs {
            assert_eq!(load(a).at_least(load(b)), a >= b, "{a} >= {b}");
        }
    }
}

#[test]
fn policy_takes_its_range_from_the_limits() {
    let l = Limits { min_ram: 1, max_ram: 2, min_cpu_shares: 100, max_cpu_shares: 5000 };
    let p = ScalingPolicy::from_limits(&l);
    assert_eq!((p.min_cpu_shares, p.max_cpu_shares), (100, 5000));
    assert_eq!(p.high_load_threshold, load(0.80));
    assert_eq!(p.low_load_threshold, load(0.20));
    assert_eq!(p.poll_interval_ms, 500);
    assert_eq!(p.next_shares(100, load(0.8)), 1325);
    assert_eq!(p.next_shares(4999, load(0.8)), 5000);
    assert_eq!(p.next_shares(101, load(0.2)), 100);
    assert_eq!(p.next_shares(1000, load(f64::NAN)), 1000);
}

#[test]
fn failures_leave_the_shares_alone() {
    let policy = make_policy();
    let mut m = Monitor { policy, state: MonitorState::new(&policy), load: BrokenProbe, sink: BrokenSink };
    match m.tick() {
        TickOutcome::ProbeFailed { error } => assert_eq!(error, "no load"),
        _ => panic!("expected the probe to fail"),
    }
    assert_eq!(m.start(), Err("no 256".to_string()));
    let mut m = Monitor {
        policy,
        state: MonitorState::new(&policy),
        load: ScriptedLoad { values: vec![1.0], idx: 0 },
        sink: BrokenSink,
    };
    match m.tick() {
        TickOutcome::SinkFailed { next, error, .. } => {
            assert_eq!(next, 704);
            assert_eq!(error, "no 704");
        }
        _ => panic!("expected the sink to fail"),
    }
    assert_eq!(m.state.cpu_shares, 256);
}

#[test]
fn plans_follow_the_reading() {
    let mut m = monitor(vec![0.0]);
    assert!(matches!(m.plan(Ok(load(0.5))), Plan::Keep { .. }));
    assert!(matches!(m.plan(Ok(load(0.9))), Plan::Change { current: 256, next: 704, .. }));
    assert!(matches!(m.plan(Err("x".to_string())), Plan::ProbeFailed { .. }));
    m.settle(700, &Err("x".to_string()));
    assert_eq!(m.state.cpu_shares, 256);
    m.settle(700, &Ok(()));
    assert_eq!(m.state.cpu_shares, 700);
}

#[test]
fn turns_end_with_shutdown() {
    let mut m = monitor(vec![0.9]);
    m.policy.poll_interval_ms = 500;
    match m.turn() {
        Step::Rest { outcome, rest_ms } => {
            assert_eq!(rest_ms, 500);
            assert!(matches!(outcome, TickOutcome::Changed { current: 256, next: 704, .. }));
        }
        Step::Stop => panic!("expected a rest"),
    }
    m.state.shutdown = true;
    assert!(matches!(m.turn(), Step::Stop));
    assert_eq!(m.sink.0, vec![256, 704]);
}

#[test]
fn a_monitor_told_to_stop_at_once_only_sets_the_floor() {
    let mut m = monitor(vec![0.9]);
    m.state.shutdown = true;
    assert!(matches!(m.turn(), Step::Stop));
    assert!(matches!(m.turn(), Step::Stop));
    assert_eq!(m.sink.0, vec![256]);
    assert_eq!(m.load.idx, 0);
}

#[test]
fn a_floor_that_is_refused_does_not_stop_the_monitor() {
    let policy = make_policy();
    let mut m = Monitor {
        policy,
        state: MonitorState::new(&policy),
        load: ScriptedLoad { values: vec![0.5], idx: 0 },
        sink: BrokenSink,
    };
    assert!(matches!(m.turn(), Step::Rest { outcome: TickOutcome::Unchanged { .. }, .. }));
}
