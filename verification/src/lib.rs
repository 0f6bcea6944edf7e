//! The verified core of HyperPod, a lightweight virtual machine manager and
//! scaling engine: configuration rules, the CPU-share scaling policy, guest
//! memory, the kernel loader, boot tables, the VirtIO-MMIO transport, the I/O
//! throttle, block-storage geometry and the vCPU exit handling.

pub mod codec;
pub mod commands;
pub mod config;
pub mod scaling;
pub mod text;
pub mod vmm;
