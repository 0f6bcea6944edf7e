//! The virtual machine: its memory, its devices and its processor.

pub mod common;
pub mod kvm;
pub mod vcpu;
pub mod whpx;
