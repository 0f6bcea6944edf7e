//! Devices that the guest sees.

pub mod mmio;
pub mod throttle;
