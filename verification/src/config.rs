//! The description of a virtual machine, and what makes one valid.

use vstd::prelude::*;

use crate::text::{append_decimal, blank, decimal, is_blank};

verus! {

/// The description of a virtual machine.
#[derive(Debug, Clone)]
pub struct HyperPodFile {
    pub rootfs_path: String,
    pub kernel_path: String,
    pub cmdline: String,
    pub limits: Limits,
    pub gpu: Option<GpuPolicy>,
}

#[derive(Debug, Clone, Copy, PartialEq, Eq, Structural)]
pub struct Limits {
    /// Minimum guest RAM, in MiB.
    pub min_ram: u64,
    /// Maximum guest RAM, in MiB. Burstable ceiling.
    pub max_ram: u64,
    /// Minimum CPU shares of the process: the cgroup weight on Linux, hundredths of a
    /// percent of the CPU rate on Windows.
    pub min_cpu_shares: u64,
    /// Maximum CPU shares that the scaler may grant on a burst.
    pub max_cpu_shares: u64,
}

/// The machine's claim on the host's GPU.
#[derive(Debug, Clone, Copy, PartialEq, Eq, Structural)]
pub enum GpuPolicy {
    /// Admission by credits: at most `max_credits`, refilled at `credits_per_second`.
    Credits { credits_per_second: u64, max_credits: u64 },
    /// Unrestricted access.
    Full,
}

/// Largest CPU share value.
pub const MAX_CPU_SHARES: u64 = 10_000;

/// What the host has at a path.
#[derive(Debug, Clone, Copy, PartialEq, Eq, Structural)]
pub enum PathStatus {
    RegularFile,
    /// Something that is not a regular file.
    NotRegular,
    /// Nothing that can be looked at.
    Inaccessible,
}

/// A field of the description that names a file.
#[derive(Debug, Clone, Copy, PartialEq, Eq, Structural)]
pub enum PathField {
    Kernel,
    Rootfs,
}

impl PathField {
    /// The field's name.
    pub open spec fn label(self) -> Seq<char> {
        match self {
            PathField::Kernel => "kernel_path"@,
            PathField::Rootfs => "rootfs_path"@,
        }
    }

    /// The field's name.
    pub fn name(&self) -> (s: &'static str)
        ensures
            s@ == self.label(),
    {
        match *self {
            PathField::Kernel => "kernel_path",
            PathField::Rootfs => "rootfs_path",
        }
    }
}

/// Why a description is not valid.
#[derive(Debug, Clone, Copy, PartialEq, Eq, Structural)]
pub enum ConfigError {
    Inaccessible(PathField),
    NotRegular(PathField),
    BlankCmdline,
    ZeroMinRam,
    InvertedRam { max_ram: u64, min_ram: u64 },
    ZeroMinCpuShares,
    InvertedCpuShares { max_cpu_shares: u64, min_cpu_shares: u64 },
    CpuSharesOutOfRange,
    ZeroGpuCredits,
}

/// What the file that `field` names comes to.
pub open spec fn path_check(field: PathField, status: PathStatus) -> Result<(), ConfigError> {
    match status {
        PathStatus::RegularFile => Ok(()),
        PathStatus::NotRegular => Err(ConfigError::NotRegular(field)),
        PathStatus::Inaccessible => Err(ConfigError::Inaccessible(field)),
    }
}

/// Checks that `field` names a regular file.
pub fn ensure_file_exists(field: PathField, status: PathStatus) -> (r: Result<(), ConfigError>)
    ensures
        r == path_check(field, status),
{
    match status {
        PathStatus::RegularFile => Ok(()),
        PathStatus::NotRegular => Err(ConfigError::NotRegular(field)),
        PathStatus::Inaccessible => Err(ConfigError::Inaccessible(field)),
    }
}

impl Limits {
    /// The first thing that is wrong with the limits.
    pub open spec fn check(self) -> Result<(), ConfigError> {
        if self.min_ram == 0 {
            Err(ConfigError::ZeroMinRam)
        } else if self.max_ram < self.min_ram {
            Err(ConfigError::InvertedRam { max_ram: self.max_ram, min_ram: self.min_ram })
        } else if self.min_cpu_shares == 0 {
            Err(ConfigError::ZeroMinCpuShares)
        } else if self.max_cpu_shares < self.min_cpu_shares {
            Err(
                ConfigError::InvertedCpuShares {
                    max_cpu_shares: self.max_cpu_shares,
                    min_cpu_shares: self.min_cpu_shares,
                },
            )
        } else if self.max_cpu_shares > MAX_CPU_SHARES {
            Err(ConfigError::CpuSharesOutOfRange)
        } else {
            Ok(())
        }
    }
}

impl GpuPolicy {
    /// The policy grants something.
    pub open spec fn grants(self) -> bool {
        match self {
            GpuPolicy::Credits { credits_per_second, max_credits } => credits_per_second > 0
                && max_credits > 0,
            GpuPolicy::Full => true,
        }
    }
}

impl HyperPodFile {
    /// The first thing that is wrong with the description, on a host that has `kernel`
    /// and `rootfs` at its paths.
    pub open spec fn check(&self, kernel: PathStatus, rootfs: PathStatus) -> Result<
        (),
        ConfigError,
    > {
        if path_check(PathField::Kernel, kernel) is Err {
            path_check(PathField::Kernel, kernel)
        } else if path_check(PathField::Rootfs, rootfs) is Err {
            path_check(PathField::Rootfs, rootfs)
        } else if blank(self.cmdline@) {
            Err(ConfigError::BlankCmdline)
        } else if self.limits.check() is Err {
            self.limits.check()
        } else if self.gpu matches Some(g) && !g.grants() {
            Err(ConfigError::ZeroGpuCredits)
        } else {
            Ok(())
        }
    }

    /// Checks the description, given what the host has at the paths that it names.
    pub fn validate(&self, kernel: PathStatus, rootfs: PathStatus) -> (r: Result<(), ConfigError>)
        ensures
            r == self.check(kernel, rootfs),
    {
        match ensure_file_exists(PathField::Kernel, kernel) {
            Ok(_) => {},
            Err(e) => return Err(e),
        }
        match ensure_file_exists(PathField::Rootfs, rootfs) {
            Ok(_) => {},
            Err(e) => return Err(e),
        }
        if is_blank(self.cmdline.as_str()) {
            return Err(ConfigError::BlankCmdline);
        }
        let l = self.limits;
        if l.min_ram == 0 {
            return Err(ConfigError::ZeroMinRam);
        }
        if l.max_ram < l.min_ram {
            return Err(ConfigError::InvertedRam { max_ram: l.max_ram, min_ram: l.min_ram });
        }
        if l.min_cpu_shares == 0 {
            return Err(ConfigError::ZeroMinCpuShares);
        }
        if l.max_cpu_shares < l.min_cpu_shares {
            return Err(
                ConfigError::InvertedCpuShares {
                    max_cpu_shares: l.max_cpu_shares,
                    min_cpu_shares: l.min_cpu_shares,
                },
            );
        }
        if l.min_cpu_shares > MAX_CPU_SHARES || l.max_cpu_shares > MAX_CPU_SHARES {
            return Err(ConfigError::CpuSharesOutOfRange);
        }
        if let Some(GpuPolicy::Credits { credits_per_second, max_credits }) = self.gpu {
            if credits_per_second == 0 || max_credits == 0 {
                return Err(ConfigError::ZeroGpuCredits);
            }
        }
        Ok(())
    }

    /// The path that `field` holds.
    pub open spec fn path(&self, field: PathField) -> Seq<char> {
        match field {
            PathField::Kernel => self.kernel_path@,
            PathField::Rootfs => self.rootfs_path@,
        }
    }

    /// The text that reports `error` for this description.
    pub open spec fn error_text(&self, error: ConfigError) -> Seq<char> {
        match error {
            ConfigError::Inaccessible(field) => field.label() + " `"@ + self.path(field)
                + "` is not accessible"@,
            ConfigError::NotRegular(field) => field.label() + " `"@ + self.path(field)
                + "` is not a regular file"@,
            ConfigError::BlankCmdline => "cmdline must not be empty"@,
            ConfigError::ZeroMinRam => "limits.min_ram must be greater than zero"@,
            ConfigError::InvertedRam { max_ram, min_ram } => "limits.max_ram ("@ + decimal(
                max_ram as nat,
            ) + ") must be >= limits.min_ram ("@ + decimal(min_ram as nat) + ")"@,
            ConfigError::ZeroMinCpuShares => "limits.min_cpu_shares must be greater than zero"@,
            ConfigError::InvertedCpuShares { max_cpu_shares, min_cpu_shares } =>
                "limits.max_cpu_shares ("@ + decimal(max_cpu_shares as nat)
                + ") must be >= limits.min_cpu_shares ("@ + decimal(min_cpu_shares as nat) + ")"@,
            ConfigError::CpuSharesOutOfRange =>
                "cpu_shares values must lie in 1..=10000 (matches cgroup v2 cpu.weight and JobObject CpuRate)"@,
            ConfigError::ZeroGpuCredits => "gpu.credits values must be greater than zero"@,
        }
    }

    /// Reports `error` in words.
    pub fn message(&self, error: ConfigError) -> (s: String)
        ensures
            s@ == self.error_text(error),
    {
        match error {
            ConfigError::Inaccessible(field) => {
                let mut s = String::from_str(field.name());
                s.append(" `");
                s.append(self.path_str(field));
                s.append("` is not accessible");
                s
            },
            ConfigError::NotRegular(field) => {
                let mut s = String::from_str(field.name());
                s.append(" `");
                s.append(self.path_str(field));
                s.append("` is not a regular file");
                s
            },
            ConfigError::BlankCmdline => String::from_str("cmdline must not be empty"),
            ConfigError::ZeroMinRam => String::from_str("limits.min_ram must be greater than zero"),
            ConfigError::InvertedRam { max_ram, min_ram } => {
                let mut s = String::from_str("limits.max_ram (");
                append_decimal(&mut s, max_ram);
                s.append(") must be >= limits.min_ram (");
                append_decimal(&mut s, min_ram);
                s.append(")");
                s
            },
            ConfigError::ZeroMinCpuShares => String::from_str(
                "limits.min_cpu_shares must be greater than zero",
            ),
            ConfigError::InvertedCpuShares { max_cpu_shares, min_cpu_shares } => {
                let mut s = String::from_str("limits.max_cpu_shares (");
                append_decimal(&mut s, max_cpu_shares);
                s.append(") must be >= limits.min_cpu_shares (");
                append_decimal(&mut s, min_cpu_shares);
                s.append(")");
                s
            },
            ConfigError::CpuSharesOutOfRange => String::from_str(
                "cpu_shares values must lie in 1..=10000 (matches cgroup v2 cpu.weight and JobObject CpuRate)",
            ),
            ConfigError::ZeroGpuCredits => String::from_str(
                "gpu.credits values must be greater than zero",
            ),
        }
    }

    fn path_str(&self, field: PathField) -> (s: &str)
        ensures
            s@ == self.path(field),
    {
        match field {
            PathField::Kernel => self.kernel_path.as_str(),
            PathField::Rootfs => self.rootfs_path.as_str(),
        }
    }
}

/// A description is valid exactly where its files are regular files, its command line
/// is not blank, its limits are in order and in range, and its GPU policy, if it has
/// one, grants something.
pub proof fn law_valid_descriptions(cfg: &HyperPodFile, kernel: PathStatus, rootfs: PathStatus)
    ensures
        cfg.check(kernel, rootfs) is Ok <==> {
            &&& kernel is RegularFile
            &&& rootfs is RegularFile
            &&& !blank(cfg.cmdline@)
            &&& 1 <= cfg.limits.min_ram <= cfg.limits.max_ram
            &&& 1 <= cfg.limits.min_cpu_shares <= cfg.limits.max_cpu_shares <= MAX_CPU_SHARES
            &&& cfg.gpu matches Some(g) ==> g.grants()
        },
{
}

/// What a description is refused for: each error comes exactly where its rule is broken and
/// all rules before it are kept.
pub proof fn law_first_fault(cfg: &HyperPodFile, kernel: PathStatus, rootfs: PathStatus)
    ensures
        ({
            let l = cfg.limits;
            let r = cfg.check(kernel, rootfs);
            let files = kernel is RegularFile && rootfs is RegularFile;
            let words = files && !blank(cfg.cmdline@);
            let ram = words && 0 < l.min_ram <= l.max_ram;
            let ordered = ram && 0 < l.min_cpu_shares <= l.max_cpu_shares;
            &&& kernel is Inaccessible <==> r == fault(ConfigError::Inaccessible(PathField::Kernel))
            &&& kernel is NotRegular <==> r == fault(ConfigError::NotRegular(PathField::Kernel))
            &&& kernel is RegularFile && rootfs is Inaccessible <==> r == fault(
                ConfigError::Inaccessible(PathField::Rootfs),
            )
            &&& kernel is RegularFile && rootfs is NotRegular <==> r == fault(
                ConfigError::NotRegular(PathField::Rootfs),
            )
            &&& files && blank(cfg.cmdline@) <==> r == fault(ConfigError::BlankCmdline)
            &&& words && l.min_ram == 0 <==> r == fault(ConfigError::ZeroMinRam)
            &&& words && 0 < l.min_ram && l.max_ram < l.min_ram <==> r == fault(
                ConfigError::InvertedRam { max_ram: l.max_ram, min_ram: l.min_ram },
            )
            &&& ram && l.min_cpu_shares == 0 <==> r == fault(ConfigError::ZeroMinCpuShares)
            &&& ram && 0 < l.min_cpu_shares && l.max_cpu_shares < l.min_cpu_shares <==> r == fault(
                ConfigError::InvertedCpuShares {
                    max_cpu_shares: l.max_cpu_shares,
                    min_cpu_shares: l.min_cpu_shares,
                },
            )
            &&& ordered && l.max_cpu_shares > 10_000 <==> r == fault(
                ConfigError::CpuSharesOutOfRange,
            )
            &&& ordered && l.max_cpu_shares <= 10_000 && (cfg.gpu matches Some(
                GpuPolicy::Credits { credits_per_second, max_credits },
            ) && (credits_per_second == 0 || max_credits == 0)) <==> r == fault(
                ConfigError::ZeroGpuCredits,
            )
        }),
{
}

/// A description is refused for `e`.
pub open spec fn fault(e: ConfigError) -> Result<(), ConfigError> {
    Err(e)
}

/// A complaint about a path names the field and the path; one about an order names both
/// numbers, the larger field first.
pub proof fn law_messages(cfg: &HyperPodFile, a: u64, b: u64)
    ensures
        cfg.error_text(ConfigError::Inaccessible(PathField::Kernel)) == "kernel_path `"@
            + cfg.kernel_path@ + "` is not accessible"@,
        cfg.error_text(ConfigError::Inaccessible(PathField::Rootfs)) == "rootfs_path `"@
            + cfg.rootfs_path@ + "` is not accessible"@,
        cfg.error_text(ConfigError::NotRegular(PathField::Kernel)) == "kernel_path `"@
            + cfg.kernel_path@ + "` is not a regular file"@,
        cfg.error_text(ConfigError::NotRegular(PathField::Rootfs)) == "rootfs_path `"@
            + cfg.rootfs_path@ + "` is not a regular file"@,
        cfg.error_text(ConfigError::InvertedRam { max_ram: a, min_ram: b }) == "limits.max_ram ("@
            + decimal(a as nat) + ") must be >= limits.min_ram ("@ + decimal(b as nat) + ")"@,
        cfg.error_text(ConfigError::InvertedCpuShares { max_cpu_shares: a, min_cpu_shares: b })
            == "limits.max_cpu_shares ("@ + decimal(a as nat)
            + ") must be >= limits.min_cpu_shares ("@ + decimal(b as nat) + ")"@,
{
    reveal_strlit("kernel_path `");
    reveal_strlit("rootfs_path `");
    reveal_strlit("kernel_path");
    reveal_strlit("rootfs_path");
    reveal_strlit(" `");
    assert("kernel_path"@ + " `"@ =~= "kernel_path `"@);
    assert("rootfs_path"@ + " `"@ =~= "rootfs_path `"@);
}

} // verus!
