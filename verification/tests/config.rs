use hyperpod::config::{
    ensure_file_exists, ConfigError, GpuPolicy, HyperPodFile, Limits, PathField, PathStatus,
};
use toml::Table;

const FILE: PathStatus = PathStatus::RegularFile;

fn limits(min_ram: u64, max_ram: u64, min_cpu_shares: u64, max_cpu_shares: u64) -> Limits {
    Limits { min_ram, max_ram, min_cpu_shares, max_cpu_shares }
}

fn config(cmdline: &str, limits: Limits, gpu: Option<GpuPolicy>) -> HyperPodFile {
    HyperPodFile {
        rootfs_path: "/vm/rootfs.ext4".to_string(),
        kernel_path: "/vm/vmlinux".to_string(),
        cmdline: cmdline.to_string(),
        limits,
        gpu,
    }
}

fn text(t: &Table, key: &str) -> String {
    t[key].as_str().unwrap().to_string()
}

fn number(t: &Table, key: &str) -> u64 {
    t[key].as_integer().unwrap() as u64
}

/// Parses a description, and validates it on a host where everything under `/vm` is a
/// regular file and there is nothing else.
fn load(body: &str) -> Result<HyperPodFile, String> {
    let t: Table = body.parse().map_err(|e: toml::de::Error| e.to_string())?;
    let l = t["limits"].as_table().unwrap();
    let cfg = HyperPodFile {
        rootfs_path: text(&t, "rootfs_path"),
        kernel_path: text(&t, "kernel_path"),
        cmdline: text(&t, "cmdline"),
        limits: limits(
            number(l, "min_ram"),
            number(l, "max_ram"),
            number(l, "min_cpu_shares"),
            number(l, "max_cpu_shares"),
        ),
        gpu: t.get("gpu").map(|g| {
            let g = g.as_table().unwrap();
            match text(g, "mode").as_str() {
                "credits" => GpuPolicy::Credits {
                    credits_per_second: number(g, "credits_per_second"),
                    max_credits: number(g, "max_credits"),
                },
                "full" => GpuPolicy::Full,
                other => panic!("unknown mode {other}"),
            }
        }),
    };
    let status = |path: &str| {
        if path.starts_with("/vm/") {
            FILE
        } else {
            PathStatus::Inaccessible
        }
    };
    match cfg.validate(status(&cfg.kernel_path), status(&cfg.rootfs_path)) {
        Ok(()) => Ok(cfg),
        Err(e) => Err(cfg.message(e)),
    }
}

#[test]
fn parses_valid_config() {
    let parsed = load(
        r#"
rootfs_path = "/vm/rootfs.ext4"
kernel_path = "/vm/vmlinux"
cmdline = "console=ttyS0 reboot=k panic=1"

[limits]
min_ram = 128
max_ram = 512
min_cpu_shares = 256
max_cpu_shares = 1024
"#,
    )
    .expect("config should parse");
    assert_eq!(parsed.limits.min_ram, 128);
    assert_eq!(parsed.limits.max_ram, 512);
    assert!(parsed.gpu.is_none());
}

#[test]
fn parses_gpu_credits_section() {
    let parsed = load(
        r#"
rootfs_path = "/vm/rootfs.ext4"
kernel_path = "/vm/vmlinux"
cmdline = "console=ttyS0"

[limits]
min_ram = 128
max_ram = 256
min_cpu_shares = 1
max_cpu_shares = 10000

[gpu]
mode = "credits"
credits_per_second = 100
max_credits = 1000
"#,
    )
    .unwrap();
    assert!(matches!(
        parsed.gpu,
        Some(GpuPolicy::Credits { credits_per_second: 100, max_credits: 1000 })
    ));
}

#[test]
fn parses_gpu_full_access() {
    let parsed = load(
        r#"
rootfs_path = "/vm/rootfs.ext4"
kernel_path = "/vm/vmlinux"
cmdline = "x"

[limits]
min_ram = 64
max_ram = 64
min_cpu_shares = 1
max_cpu_shares = 1

[gpu]
mode = "full"
"#,
    )
    .unwrap();
    assert!(matches!(parsed.gpu, Some(GpuPolicy::Full)));
}

#[test]
fn rejects_zero_gpu_credits() {
    let err = load(
        r#"
rootfs_path = "/vm/rootfs.ext4"
kernel_path = "/vm/vmlinux"
cmdline = "x"

[limits]
min_ram = 1
max_ram = 1
min_cpu_shares = 1
max_cpu_shares = 1

[gpu]
mode = "credits"
credits_per_second = 0
max_credits = 100
"#,
    )
    .unwrap_err();
    assert!(err.contains("gpu.credits"));
}

#[test]
fn rejects_missing_kernel() {
    let err = load(
        r#"
rootfs_path = "/vm/rootfs.ext4"
kernel_path = "/nonexistent/vmlinux"
cmdline = "console=ttyS0"

[limits]
min_ram = 128
max_ram = 256
min_cpu_shares = 128
max_cpu_shares = 512
"#,
    )
    .unwrap_err();
    assert!(err.contains("kernel_path"));
}

#[test]
fn rejects_inverted_ram_bounds() {
    let err = load(
        r#"
rootfs_path = "/vm/rootfs.ext4"
kernel_path = "/vm/vmlinux"
cmdline = "x"

[limits]
min_ram = 512
max_ram = 128
min_cpu_shares = 128
max_cpu_shares = 512
"#,
    )
    .unwrap_err();
    assert!(err.contains("max_ram"));
}

#[test]
fn every_rule_has_its_error() {
    let good = limits(1, 1, 1, 1);
    let check = |cmdline: &str, l: Limits, gpu: Option<GpuPolicy>| {
        let cfg = config(cmdline, l, gpu);
        let e = cfg.validate(FILE, FILE).unwrap_err();
        (e, cfg.message(e))
    };
    assert_eq!(
        check(" \t\u{3000}", good, None),
        (ConfigError::BlankCmdline, "cmdline must not be empty".to_string())
    );
    assert_eq!(
        check("x", limits(0, 0, 0, 0), None),
        (ConfigError::ZeroMinRam, "limits.min_ram must be greater than zero".to_string())
    );
    assert_eq!(
        check("x", limits(2, 1, 1, 1), None),
        (
            ConfigError::InvertedRam { max_ram: 1, min_ram: 2 },
            "limits.max_ram (1) must be >= limits.min_ram (2)".to_string()
        )
    );
    assert_eq!(
        check("x", limits(1, 1, 0, 0), None),
        (
            ConfigError::ZeroMinCpuShares,
            "limits.min_cpu_shares must be greater than zero".to_string()
        )
    );
    assert_eq!(
        check("x", limits(1, 1, 20000, 3), None),
        (
            ConfigError::InvertedCpuShares { max_cpu_shares: 3, min_cpu_shares: 20000 },
            "limits.max_cpu_shares (3) must be >= limits.min_cpu_shares (20000)".to_string()
        )
    );
    assert_eq!(
        check("x", limits(1, 1, 1, 10001), None),
        (
            ConfigError::CpuSharesOutOfRange,
            "cpu_shares values must lie in 1..=10000 (matches cgroup v2 cpu.weight and JobObject CpuRate)"
                .to_string()
        )
    );
    let gpu = GpuPolicy::Credits { credits_per_second: 1, max_credits: 0 };
    assert_eq!(
        check("x", good, Some(gpu)),
        (
            ConfigError::ZeroGpuCredits,
            "gpu.credits values must be greater than zero".to_string()
        )
    );
}

#[test]
fn paths_are_checked_first_and_the_kernel_before_the_rootfs() {
    let cfg = config("", limits(0, 0, 0, 0), None);
    let e = cfg.validate(PathStatus::NotRegular, PathStatus::Inaccessible).unwrap_err();
    assert_eq!(e, ConfigError::NotRegular(PathField::Kernel));
    assert_eq!(cfg.message(e), "kernel_path `/vm/vmlinux` is not a regular file");
    let e = cfg.validate(FILE, PathStatus::Inaccessible).unwrap_err();
    assert_eq!(e, ConfigError::Inaccessible(PathField::Rootfs));
    assert_eq!(cfg.message(e), "rootfs_path `/vm/rootfs.ext4` is not accessible");
    assert_eq!(ensure_file_exists(PathField::Kernel, FILE), Ok(()));
}
