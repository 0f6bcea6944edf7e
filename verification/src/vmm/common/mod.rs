//! Building blocks that both hypervisor backends share.

pub mod boot;
pub mod device;
pub mod elf;
pub mod ram;
pub mod serial;
pub mod storage;
