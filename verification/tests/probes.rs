use hyperpod::config::PathStatus;
use hyperpod::scaling::probes::{
    cgroup_weight_path, clamp_shares, cpu_rate, discover_cgroup_share_sink, ft_to_u64, load_field,
    snapshot, CgroupShareSink, CpuTimes, FileTime, GetSystemTimesProbe, ProbeError, ProcLoadProbe,
};

#[test]
fn processors_are_counted() {
    let cpus = |s: &str| ProcLoadProbe::new(s, Ok("0.5 ".to_string())).unwrap().num_cpus;
    let cpuinfo = "processor\t: 0\nvendor_id\t: x\n\nprocessor\t: 1\r\n processor : 2\nprocessor";
    assert_eq!(cpus(cpuinfo), 3);
    assert_eq!(cpus(""), 1);
    assert_eq!(cpus("model name : y\n"), 1);
}

#[test]
fn load_field_is_the_first_word() {
    assert_eq!(load_field("0.52 0.58 0.59 1/467 12345\n").unwrap(), "0.52");
    assert_eq!(load_field("\n\t1.5").unwrap(), "1.5");
    let e = load_field(" \n").unwrap_err();
    assert_eq!(e.message(), "/proc/loadavg empty");
}

#[test]
fn weight_path_follows_the_unified_group() {
    let path = |s: &str| cgroup_weight_path(s).unwrap();
    assert_eq!(
        path("0::/user.slice/session-1.scope\n"),
        "/sys/fs/cgroup/user.slice/session-1.scope/cpu.weight"
    );
    assert_eq!(path("0::/\n"), "/sys/fs/cgroup/cpu.weight");
    assert_eq!(path("0::"), "/sys/fs/cgroup/cpu.weight");
    assert_eq!(path("1:cpu:/a\n0::/b\r\n0::/c\n"), "/sys/fs/cgroup/b/cpu.weight");
    assert_eq!(path("0::0:: //a/ \n"), "/sys/fs/cgroup/a/cpu.weight");
    let e = cgroup_weight_path("1:cpu:/a\n").unwrap_err();
    assert_eq!(
        e.message(),
        "no cgroup-v2 line in /proc/self/cgroup; HyperPod requires cgroup v2 for CPU scaling"
    );
}

#[test]
fn weight_path_joins_as_paths_join() {
    for rel in ["a", "a/b", "a/", "", "a//", "x y"] {
        let line = format!("0::/{rel}\n");
        let joined = std::path::Path::new("/sys/fs/cgroup").join(rel).join("cpu.weight");
        assert_eq!(cgroup_weight_path(&line).unwrap(), joined.to_str().unwrap());
    }
}

#[test]
fn sink_needs_its_file() {
    let sink = discover_cgroup_share_sink("0::/a\n", PathStatus::RegularFile).unwrap();
    assert_eq!(sink.path, "/sys/fs/cgroup/a/cpu.weight");
    assert_eq!(sink.weight_text(0), "1");
    assert_eq!(sink.weight_text(5000), "5000");
    assert_eq!(sink.weight_text(10_001), "10000");
    let e = discover_cgroup_share_sink("0::/a\n", PathStatus::Inaccessible).unwrap_err();
    assert_eq!(e.message(), "cgroup file /sys/fs/cgroup/a/cpu.weight does not exist");
    assert!(matches!(
        discover_cgroup_share_sink("", PathStatus::RegularFile),
        Err(ProbeError::NoCgroup)
    ));
    assert!(CgroupShareSink::new("x".to_string(), PathStatus::NotRegular).is_err());
}

#[test]
fn shares_are_clamped() {
    assert_eq!(clamp_shares(0), 1);
    assert_eq!(clamp_shares(1), 1);
    assert_eq!(clamp_shares(10_000), 10_000);
    assert_eq!(clamp_shares(u64::MAX), 10_000);
    assert_eq!(cpu_rate(u64::MAX), 10_000);
    assert_eq!(cpu_rate(5_000), 5_000);
}

#[test]
fn file_times_join_their_halves() {
    assert_eq!(ft_to_u64(FileTime { low: 2, high: 1 }), 0x1_0000_0002);
    assert_eq!(ft_to_u64(FileTime { low: u32::MAX, high: u32::MAX }), u64::MAX);
}

#[test]
fn times_are_counted_since_the_last_look() {
    let ft = |low: u32| FileTime { low, high: 0 };
    let t = snapshot(ft(5), ft(20), ft(30));
    assert_eq!(t, CpuTimes { idle: 5, total: 50 });
    let all = FileTime { low: u32::MAX, high: u32::MAX };
    assert_eq!(snapshot(ft(0), all, ft(3)).total, 2);
    let mut p = GetSystemTimesProbe::new(t);
    assert_eq!(
        p.advance(CpuTimes { idle: 6, total: 60 }),
        Some(CpuTimes { idle: 1, total: 10 })
    );
    assert_eq!(p.advance(CpuTimes { idle: 7, total: 60 }), None);
    assert_eq!(p.advance(CpuTimes { idle: 3, total: 50 }), None);
    assert_eq!(
        p.advance(CpuTimes { idle: 2, total: 55 }),
        Some(CpuTimes { idle: 0, total: 5 })
    );
}

#[test]
fn no_load_to_read_means_no_probe() {
    let e = ProcLoadProbe::new("processor : 0\n", Err("denied".to_string())).unwrap_err();
    assert_eq!(e.message(), "read /proc/loadavg: denied");
}
