//! What the commands tell the user.

use vstd::prelude::*;

use crate::config::{GpuPolicy, HyperPodFile};
use crate::text::{append_decimal, decimal};
use crate::vmm::common::storage::Format;

verus! {

/// What is said of the GPU policy.
pub open spec fn gpu_line(gpu: Option<GpuPolicy>) -> Seq<char> {
    match gpu {
        None => "  gpu      : (none configured)"@,
        Some(GpuPolicy::Full) => "  gpu      : full (unrestricted)"@,
        Some(GpuPolicy::Credits { credits_per_second, max_credits }) => "  gpu      : credits ("@
            + decimal(credits_per_second as nat) + "/s, burst "@ + decimal(max_credits as nat)
            + ")"@,
    }
}

/// What is said of a machine before it starts.
pub open spec fn start_lines(path: Seq<char>, cfg: &HyperPodFile, format: Format) -> Seq<Seq<char>> {
    let l = cfg.limits;
    seq![
        "HyperPod configuration loaded from "@ + path,
        "  kernel   : "@ + cfg.kernel_path@,
        "  rootfs   : "@ + cfg.rootfs_path@ + " ("@ + format.label() + ")"@,
        "  cmdline  : "@ + cfg.cmdline@,
        "  ram      : "@ + decimal(l.min_ram as nat) + " MiB .. "@ + decimal(l.max_ram as nat)
            + " MiB"@,
        "  cpu      : "@ + decimal(l.min_cpu_shares as nat) + " .. "@ + decimal(
            l.max_cpu_shares as nat,
        ) + " shares"@,
        gpu_line(cfg.gpu),
    ]
}

/// Describes the GPU policy.
fn gpu_text(gpu: Option<GpuPolicy>) -> (s: String)
    ensures
        s@ == gpu_line(gpu),
{
    match gpu {
        None => String::from_str("  gpu      : (none configured)"),
        Some(GpuPolicy::Full) => String::from_str("  gpu      : full (unrestricted)"),
        Some(GpuPolicy::Credits { credits_per_second, max_credits }) => {
            let mut s = String::from_str("  gpu      : credits (");
            append_decimal(&mut s, credits_per_second);
            s.append("/s, burst ");
            append_decimal(&mut s, max_credits);
            s.append(")");
            s
        },
    }
}

/// Describes the machine that the description at `path` asks for, line by line.
pub fn start_summary(path: &str, cfg: &HyperPodFile, format: Format) -> (lines: Vec<String>)
    ensures
        lines@.map_values(|s: String| s@) == start_lines(path@, cfg, format),
{
    let mut loaded = String::from_str("HyperPod configuration loaded from ");
    loaded.append(path);
    let mut kernel = String::from_str("  kernel   : ");
    kernel.append(cfg.kernel_path.as_str());
    let mut rootfs = String::from_str("  rootfs   : ");
    rootfs.append(cfg.rootfs_path.as_str());
    rootfs.append(" (");
    rootfs.append(format.name());
    rootfs.append(")");
    let mut cmdline = String::from_str("  cmdline  : ");
    cmdline.append(cfg.cmdline.as_str());
    let mut ram = String::from_str("  ram      : ");
    append_decimal(&mut ram, cfg.limits.min_ram);
    ram.append(" MiB .. ");
    append_decimal(&mut ram, cfg.limits.max_ram);
    ram.append(" MiB");
    let mut cpu = String::from_str("  cpu      : ");
    append_decimal(&mut cpu, cfg.limits.min_cpu_shares);
    cpu.append(" .. ");
    append_decimal(&mut cpu, cfg.limits.max_cpu_shares);
    cpu.append(" shares");
    let gpu = gpu_text(cfg.gpu);
    let lines: Vec<String> = vec![loaded, kernel, rootfs, cmdline, ram, cpu, gpu];
    assert(lines@.map_values(|s: String| s@) =~= start_lines(path@, cfg, format));
    lines
}

/// Describes the machines that run.
pub fn status_summary() -> (s: String)
    ensures
        s@ == "hyperpod: no running pods (runtime not implemented yet)."@,
{
    String::from_str("hyperpod: no running pods (runtime not implemented yet).")
}

/// Before it starts, a machine is described in seven lines that name its files and its
/// command line, and tell its limits and credits in decimal.
pub proof fn law_start_lines(path: Seq<char>, cfg: &HyperPodFile, format: Format)
    ensures
        ({
            let ls = start_lines(path, cfg, format);
            let l = cfg.limits;
            &&& ls.len() == 7
            &&& ls[0] == "HyperPod configuration loaded from "@ + path
            &&& ls[1] == "  kernel   : "@ + cfg.kernel_path@
            &&& format is Raw ==> ls[2] == "  rootfs   : "@ + cfg.rootfs_path@ + " (Raw)"@
            &&& format is VhdFixed ==> ls[2] == "  rootfs   : "@ + cfg.rootfs_path@ + " (VhdFixed)"@
            &&& format is VhdDynamic ==> ls[2] == "  rootfs   : "@ + cfg.rootfs_path@
                + " (VhdDynamic)"@
            &&& format is Vhdx ==> ls[2] == "  rootfs   : "@ + cfg.rootfs_path@ + " (Vhdx)"@
            &&& ls[3] == "  cmdline  : "@ + cfg.cmdline@
            &&& ls[4] == "  ram      : "@ + decimal(l.min_ram as nat) + " MiB .. "@ + decimal(
                l.max_ram as nat,
            ) + " MiB"@
            &&& ls[5] == "  cpu      : "@ + decimal(l.min_cpu_shares as nat) + " .. "@ + decimal(
                l.max_cpu_shares as nat,
            ) + " shares"@
            &&& cfg.gpu is None ==> ls[6] == "  gpu      : (none configured)"@
            &&& cfg.gpu == Some(GpuPolicy::Full) ==> ls[6] == "  gpu      : full (unrestricted)"@
            &&& cfg.gpu matches Some(GpuPolicy::Credits { credits_per_second, max_credits })
                ==> ls[6] == "  gpu      : credits ("@ + decimal(credits_per_second as nat)
                + "/s, burst "@ + decimal(max_credits as nat) + ")"@
        }),
{
    reveal_strlit(" (Raw)");
    reveal_strlit(" (VhdFixed)");
    reveal_strlit(" (VhdDynamic)");
    reveal_strlit(" (Vhdx)");
    reveal_strlit("Raw");
    reveal_strlit("VhdFixed");
    reveal_strlit("VhdDynamic");
    reveal_strlit("Vhdx");
    reveal_strlit(" (");
    reveal_strlit(")");
    let head = "  rootfs   : "@ + cfg.rootfs_path@;
    assert(head + " ("@ + "Raw"@ + ")"@ =~= head + " (Raw)"@);
    assert(head + " ("@ + "VhdFixed"@ + ")"@ =~= head + " (VhdFixed)"@);
    assert(head + " ("@ + "VhdDynamic"@ + ")"@ =~= head + " (VhdDynamic)"@);
    assert(head + " ("@ + "Vhdx"@ + ")"@ =~= head + " (Vhdx)"@);
}

} // verus!
