//! What both hypervisor backends give to a virtual processor before it starts.

use vstd::prelude::*;

use crate::text::{append_decimal, append_hex, decimal, hex};
use crate::vmm::common::boot::gdt_entry;

verus! {

/// Selector of the kernel code segment.
pub const KCS_SELECTOR: u16 = 0x08;

/// Selector of the kernel data segment.
pub const KDS_SELECTOR: u16 = 0x10;

/// Selector of the task state segment.
pub const TSS_SELECTOR: u16 = 0x18;

/// Protection enabled, paging enabled.
pub const LONG_MODE_CR0: u64 = 0x8000_0001;

/// Physical address extension.
pub const LONG_MODE_CR4: u64 = 0x20;

/// Long mode enabled, long mode active.
pub const LONG_MODE_EFER: u64 = 0x500;

/// The one bit that is always set.
pub const INITIAL_RFLAGS: u64 = 0x2;

/// The last byte of the descriptor table.
pub const GDT_LIMIT: u16 = 31;

/// The last byte of the interrupt table.
pub const IDT_LIMIT: u16 = 7;

/// Which hypervisor runs the guest.
#[derive(Debug, Clone, Copy, PartialEq, Eq, Structural)]
pub enum Hypervisor {
    Kvm,
    Whpx,
}

impl Hypervisor {
    /// What the backend's messages begin with.
    pub open spec fn prefix(self) -> Seq<char> {
        match self {
            Hypervisor::Kvm => "hyperpod[kvm]: "@,
            Hypervisor::Whpx => "hyperpod[whpx]: "@,
        }
    }

    /// What the backend's messages begin with.
    pub fn tag(&self) -> (s: &'static str)
        ensures
            s@ == self.prefix(),
    {
        match *self {
            Hypervisor::Kvm => "hyperpod[kvm]: ",
            Hypervisor::Whpx => "hyperpod[whpx]: ",
        }
    }

    /// The backend's message that says `what`.
    pub fn note(&self, what: &str) -> (s: String)
        ensures
            s@ == self.prefix() + what@,
    {
        let mut s = String::from_str(self.tag());
        s.append(what);
        s
    }

    /// The backend's message that says `what` of the address or port `place`.
    pub fn note_at(&self, what: &str, place: u64) -> (s: String)
        ensures
            s@ == self.prefix() + what@ + hex(place as nat),
    {
        let mut s = self.note(what);
        append_hex(&mut s, place);
        s
    }

    /// The backend's message that the guest starts at `entry` with `ram_mib` of memory.
    pub fn entering(&self, entry: u64, ram_mib: u64) -> (s: String)
        ensures
            s@ == self.prefix() + "entering vCPU at 0x"@ + hex(entry as nat) + " with "@ + decimal(
                ram_mib as nat,
            ) + " MiB RAM"@,
    {
        let mut s = self.note_at("entering vCPU at 0x", entry);
        s.append(" with ");
        append_decimal(&mut s, ram_mib);
        s.append(" MiB RAM");
        s
    }
}

/// The attributes of a segment as a descriptor holds them: its access byte, and its flags
/// in the top four bits.
pub open spec fn descriptor_attributes(descriptor: nat) -> nat {
    (descriptor / 0x100_0000_0000) % 0x100 + 0x1000 * ((descriptor / 0x10_0000_0000_0000) % 0x10)
}

/// The last offset into a segment that a descriptor with page granularity allows.
pub open spec fn descriptor_limit(descriptor: nat) -> int {
    let pages = descriptor % 0x1_0000 + 0x1_0000 * ((descriptor / 0x1_0000_0000_0000) % 0x10);
    (pages + 1) * 0x1000 - 1
}

/// The descriptor that a selector picks.
pub open spec fn selected(selector: u16) -> nat {
    gdt_entry(selector as int / 8)
}

} // verus!
