use hyperpod::commands::{start_summary, status_summary};
use hyperpod::config::{GpuPolicy, HyperPodFile, Limits};
use hyperpod::vmm::common::storage::Format;

#[test]
fn start_describes_the_machine() {
    let mut cfg = HyperPodFile {
        rootfs_path: "/vm/r.vhd".to_string(),
        kernel_path: "/vm/k".to_string(),
        cmdline: "console=ttyS0".to_string(),
        limits: Limits { min_ram: 128, max_ram: 1024, min_cpu_shares: 100, max_cpu_shares: 5000 },
        gpu: None,
    };
    let lines = start_summary("HyperPod.toml", &cfg, Format::VhdFixed);
    assert_eq!(
        lines,
        vec![
            "HyperPod configuration loaded from HyperPod.toml",
            "  kernel   : /vm/k",
            "  rootfs   : /vm/r.vhd (VhdFixed)",
            "  cmdline  : console=ttyS0",
            "  ram      : 128 MiB .. 1024 MiB",
            "  cpu      : 100 .. 5000 shares",
            "  gpu      : (none configured)",
        ]
    );
    cfg.gpu = Some(GpuPolicy::Full);
    assert_eq!(start_summary("x", &cfg, Format::Raw)[6], "  gpu      : full (unrestricted)");
    cfg.gpu = Some(GpuPolicy::Credits { credits_per_second: 500, max_credits: 5000 });
    assert_eq!(start_summary("x", &cfg, Format::Raw)[6], "  gpu      : credits (500/s, burst 5000)");
}

#[test]
fn status_has_nothing_to_report() {
    assert_eq!(status_summary(), "hyperpod: no running pods (runtime not implemented yet).");
}
