//! The decisions of the KVM backend: the registers that a virtual processor starts with,
//! and what to do when it exits.

use vstd::prelude::*;

use crate::text::hex;
use crate::vmm::common::boot::{
    BOOT_GDT_OFFSET, BOOT_IDT_OFFSET, BOOT_STACK_POINTER, PML4_START, ZERO_PAGE_START,
};
use crate::vmm::common::serial::{console_byte, is_serial_port, read_reply, Serial};
use crate::vmm::vcpu::{
    descriptor_attributes, descriptor_limit, selected, Hypervisor, GDT_LIMIT, IDT_LIMIT,
    INITIAL_RFLAGS, KCS_SELECTOR, KDS_SELECTOR, LONG_MODE_CR0, LONG_MODE_CR4, LONG_MODE_EFER,
    TSS_SELECTOR,
};

verus! {

/// A segment register.
#[derive(Debug, Clone, Copy, PartialEq, Eq, Structural)]
pub struct Segment {
    pub base: u64,
    pub limit: u32,
    pub selector: u16,
    pub type_: u8,
    pub present: u8,
    pub dpl: u8,
    pub db: u8,
    pub s: u8,
    pub l: u8,
    pub g: u8,
    pub avl: u8,
    pub unusable: u8,
    pub padding: u8,
}

impl Segment {
    /// The attributes, packed as a descriptor packs them.
    pub open spec fn attributes(self) -> int {
        self.type_ + 0x10 * self.s + 0x20 * self.dpl + 0x80 * self.present + 0x1000 * self.avl
            + 0x2000 * self.l + 0x4000 * self.db + 0x8000 * self.g
    }
}

/// A table register.
#[derive(Debug, Clone, Copy, PartialEq, Eq, Structural)]
pub struct Table {
    pub base: u64,
    pub limit: u16,
}

/// The special registers of a processor in long mode.
#[derive(Debug, Clone, Copy, PartialEq, Eq, Structural)]
pub struct SpecialRegisters {
    pub cs: Segment,
    pub ds: Segment,
    pub es: Segment,
    pub fs: Segment,
    pub gs: Segment,
    pub ss: Segment,
    pub tr: Segment,
    pub gdt: Table,
    pub idt: Table,
    pub cr0: u64,
    pub cr3: u64,
    pub cr4: u64,
    pub efer: u64,
}

/// The general registers that are set.
#[derive(Debug, Clone, Copy, PartialEq, Eq, Structural)]
pub struct GeneralRegisters {
    pub rflags: u64,
    pub rip: u64,
    pub rsp: u64,
    pub rsi: u64,
}

/// A present segment of the kernel at address zero.
pub fn make_segment(selector: u16, type_: u8, s: u8, db: u8, l: u8, g: u8, limit: u32) -> (seg:
    Segment)
    ensures
        seg == (Segment {
            base: 0,
            limit,
            selector,
            type_,
            present: 1,
            dpl: 0,
            db,
            s,
            l,
            g,
            avl: 0,
            unusable: 0,
            padding: 0,
        }),
{
    Segment {
        base: 0,
        limit,
        selector,
        type_,
        present: 1,
        dpl: 0,
        db,
        s,
        l,
        g,
        avl: 0,
        unusable: 0,
        padding: 0,
    }
}

/// A usable segment of the kernel at address zero, with `selector`, the packed
/// `attributes` and `limit`.
pub open spec fn kernel_segment(seg: Segment, selector: u16, attributes: int, limit: u32) -> bool {
    &&& seg.base == 0
    &&& seg.selector == selector
    &&& seg.attributes() == attributes
    &&& seg.limit == limit
    &&& seg.type_ < 16 && seg.s < 2 && seg.dpl == 0 && seg.present == 1
    &&& seg.l < 2 && seg.db < 2 && seg.g < 2 && seg.avl == 0
    &&& seg.unusable == 0 && seg.padding == 0
}

/// The special registers of a processor in long mode, on the tables that the boot code
/// puts into memory.
pub open spec fn in_long_mode(r: SpecialRegisters) -> bool {
    &&& kernel_segment(r.cs, KCS_SELECTOR, 0xa09b, 0xffff_ffff)
    &&& kernel_segment(r.ds, KDS_SELECTOR, 0xc093, 0xffff_ffff)
    &&& r.es == r.ds && r.fs == r.ds && r.gs == r.ds && r.ss == r.ds
    &&& kernel_segment(r.tr, TSS_SELECTOR, 0x008b, 0x67)
    &&& r.gdt == (Table { base: BOOT_GDT_OFFSET, limit: GDT_LIMIT })
    &&& r.idt == (Table { base: BOOT_IDT_OFFSET, limit: IDT_LIMIT })
    &&& r.cr0 == LONG_MODE_CR0
    &&& r.cr3 == PML4_START
    &&& r.cr4 == LONG_MODE_CR4
    &&& r.efer == LONG_MODE_EFER
}

/// The special registers that a processor starts with.
pub fn long_mode_special_registers() -> (r: SpecialRegisters)
    ensures
        in_long_mode(r),
{
    let cs = make_segment(KCS_SELECTOR, 0xb, 1, 0, 1, 1, 0xffff_ffff);
    let data = make_segment(KDS_SELECTOR, 0x3, 1, 1, 0, 1, 0xffff_ffff);
    let tr = make_segment(TSS_SELECTOR, 0xb, 0, 0, 0, 0, 0x67);
    SpecialRegisters {
        cs,
        ds: data,
        es: data,
        fs: data,
        gs: data,
        ss: data,
        tr,
        gdt: Table { base: BOOT_GDT_OFFSET, limit: GDT_LIMIT },
        idt: Table { base: BOOT_IDT_OFFSET, limit: IDT_LIMIT },
        cr0: LONG_MODE_CR0,
        cr3: PML4_START,
        cr4: LONG_MODE_CR4,
        efer: LONG_MODE_EFER,
    }
}

/// The general registers of a processor that starts at `entry`, with the boot parameters
/// to look at.
pub open spec fn starts_at(r: GeneralRegisters, entry: u64) -> bool {
    &&& r.rflags == INITIAL_RFLAGS
    &&& r.rip == entry
    &&& r.rsp == BOOT_STACK_POINTER
    &&& r.rsi == ZERO_PAGE_START
}

/// The general registers that a processor starts with at `entry`.
pub fn long_mode_general_registers(entry: u64) -> (r: GeneralRegisters)
    ensures
        starts_at(r, entry),
{
    GeneralRegisters {
        rflags: INITIAL_RFLAGS,
        rip: entry,
        rsp: BOOT_STACK_POINTER,
        rsi: ZERO_PAGE_START,
    }
}

/// What to do with the guest's write of some data to a port.
#[derive(Debug)]
pub struct PortWrite {
    /// The byte for the console.
    pub console: Option<u8>,
    /// The message to log.
    pub log: Option<String>,
}

/// The guest reads `data` from `port`: answers in `data` where the port is the serial
/// port's, and gives the message to log where it is not.
pub fn on_port_read(serial: &Serial, port: u16, data: &mut [u8]) -> (log: Option<String>)
    ensures
        is_serial_port(port) ==> log is None && final(data)@ == read_reply(port, old(data)@),
        !is_serial_port(port) ==> final(data)@ == old(data)@ && (log matches Some(s) && s@
            == Hypervisor::Kvm.prefix() + "unhandled PIO in 0x"@ + hex(port as nat)),
{
    if Serial::handles(port) {
        serial.read(port, data);
        None
    } else {
        Some(Hypervisor::Kvm.note_at("unhandled PIO in 0x", port as u64))
    }
}

/// The guest writes `data` to `port`.
pub fn on_port_write(serial: &Serial, port: u16, data: &[u8]) -> (w: PortWrite)
    ensures
        is_serial_port(port) ==> w.log is None && w.console == console_byte(port, data@),
        !is_serial_port(port) ==> w.console is None && (w.log matches Some(s) && s@
            == Hypervisor::Kvm.prefix() + "unhandled PIO out 0x"@ + hex(port as nat)),
{
    if Serial::handles(port) {
        PortWrite { console: serial.write(port, data), log: None }
    } else {
        PortWrite {
            console: None,
            log: Some(Hypervisor::Kvm.note_at("unhandled PIO out 0x", port as u64)),
        }
    }
}

/// An exit of the processor that is no port access.
#[derive(Debug)]
pub enum Exit {
    MmioRead { addr: u64 },
    MmioWrite { addr: u64 },
    Halt,
    Shutdown,
    Other { description: String },
}

impl Exit {
    /// The guest is over.
    pub open spec fn ends(&self) -> bool {
        self is Halt || self is Shutdown
    }

    /// What is said of the exit.
    pub open spec fn text(&self) -> Seq<char> {
        match self {
            Exit::MmioRead { addr } => Hypervisor::Kvm.prefix() + "unhandled MMIO read at 0x"@
                + hex(*addr as nat),
            Exit::MmioWrite { addr } => Hypervisor::Kvm.prefix() + "unhandled MMIO write at 0x"@
                + hex(*addr as nat),
            Exit::Halt => Hypervisor::Kvm.prefix() + "guest HLT"@,
            Exit::Shutdown => Hypervisor::Kvm.prefix()
                + "guest shutdown (panic / triple fault)"@,
            Exit::Other { description } => Hypervisor::Kvm.prefix() + "unhandled vCPU exit "@
                + description@,
        }
    }

    /// Whether the guest is over.
    pub fn is_last(&self) -> (r: bool)
        ensures
            r == self.ends(),
    {
        match self {
            Exit::Halt | Exit::Shutdown => true,
            _ => false,
        }
    }

    /// What to log of the exit.
    pub fn message(&self) -> (s: String)
        ensures
            s@ == self.text(),
    {
        match self {
            Exit::MmioRead { addr } => Hypervisor::Kvm.note_at("unhandled MMIO read at 0x", *addr),
            Exit::MmioWrite { addr } => Hypervisor::Kvm.note_at(
                "unhandled MMIO write at 0x",
                *addr,
            ),
            Exit::Halt => Hypervisor::Kvm.note("guest HLT"),
            Exit::Shutdown => Hypervisor::Kvm.note("guest shutdown (panic / triple fault)"),
            Exit::Other { description } => {
                let mut s = Hypervisor::Kvm.note("unhandled vCPU exit ");
                s.append(description.as_str());
                s
            },
        }
    }
}

/// The code and data segments that the processor starts with are the ones that the
/// descriptors in memory describe, and the descriptor table's limit takes in all of the
/// descriptors that the selectors pick.
pub proof fn law_segments_match_descriptors(r: SpecialRegisters)
    requires
        in_long_mode(r),
    ensures
        r.cs.attributes() == descriptor_attributes(selected(r.cs.selector)),
        r.cs.limit == descriptor_limit(selected(r.cs.selector)),
        r.ds.attributes() == descriptor_attributes(selected(r.ds.selector)),
        r.ds.limit == descriptor_limit(selected(r.ds.selector)),
        r.cs.selector + 7 <= r.gdt.limit,
        r.ds.selector + 7 <= r.gdt.limit,
        r.tr.selector + 7 <= r.gdt.limit,
        r.gdt.base + r.gdt.limit < r.idt.base,
{
}

/// The state that a processor starts in, register by register: flat 64-bit code and data,
/// paging on through the tables at `0x9000`, at `entry`, with the boot parameters at
/// `0x7000`.
pub proof fn law_start_state(r: SpecialRegisters, g: GeneralRegisters, entry: u64)
    requires
        in_long_mode(r),
        starts_at(g, entry),
    ensures
        r.cs.base == 0 && r.cs.limit == 0xffff_ffff && r.cs.selector == 8,
        r.cs.type_ == 11 && r.cs.s == 1 && r.cs.dpl == 0 && r.cs.present == 1,
        r.cs.l == 1 && r.cs.db == 0 && r.cs.g == 1 && r.cs.unusable == 0,
        r.ds.base == 0 && r.ds.limit == 0xffff_ffff && r.ds.selector == 16,
        r.ds.type_ == 3 && r.ds.s == 1 && r.ds.dpl == 0 && r.ds.present == 1,
        r.ds.l == 0 && r.ds.db == 1 && r.ds.g == 1 && r.ds.unusable == 0,
        r.es == r.ds && r.fs == r.ds && r.gs == r.ds && r.ss == r.ds,
        r.tr.base == 0 && r.tr.limit == 0x67 && r.tr.selector == 24,
        r.tr.type_ == 11 && r.tr.s == 0 && r.tr.present == 1 && r.tr.g == 0,
        r.gdt.base == 0x500 && r.gdt.limit == 31,
        r.idt.base == 0x520 && r.idt.limit == 7,
        r.cr0 == 0x8000_0001 && r.cr3 == 0x9000 && r.cr4 == 0x20 && r.efer == 0x500,
        g.rflags == 2 && g.rip == entry && g.rsp == 0x8ff0 && g.rsi == 0x7000,
{
}

/// A halt or a shutdown ends the guest, and nothing else does.
pub proof fn law_ends(addr: u64, description: String)
    ensures
        Exit::Halt.ends(),
        Exit::Shutdown.ends(),
        !(Exit::MmioRead { addr }).ends(),
        !(Exit::MmioWrite { addr }).ends(),
        !(Exit::Other { description }).ends(),
{
}

/// What is said of an exit tells the address in hexadecimal, or the exit's description.
pub proof fn law_messages(addr: u64, description: String)
    ensures
        (Exit::MmioRead { addr }).text() == "hyperpod[kvm]: unhandled MMIO read at 0x"@ + hex(
            addr as nat,
        ),
        (Exit::MmioWrite { addr }).text() == "hyperpod[kvm]: unhandled MMIO write at 0x"@ + hex(
            addr as nat,
        ),
        (Exit::Other { description }).text() == "hyperpod[kvm]: unhandled vCPU exit "@
            + description@,
{
    reveal_strlit("hyperpod[kvm]: unhandled MMIO read at 0x");
    reveal_strlit("hyperpod[kvm]: unhandled MMIO write at 0x");
    reveal_strlit("hyperpod[kvm]: unhandled vCPU exit ");
    reveal_strlit("hyperpod[kvm]: ");
    reveal_strlit("unhandled MMIO read at 0x");
    reveal_strlit("unhandled MMIO write at 0x");
    reveal_strlit("unhandled vCPU exit ");
    assert("hyperpod[kvm]: "@ + "unhandled MMIO read at 0x"@
        =~= "hyperpod[kvm]: unhandled MMIO read at 0x"@);
    assert("hyperpod[kvm]: "@ + "unhandled MMIO write at 0x"@
        =~= "hyperpod[kvm]: unhandled MMIO write at 0x"@);
    assert("hyperpod[kvm]: "@ + "unhandled vCPU exit "@
        =~= "hyperpod[kvm]: unhandled vCPU exit "@);
}

} // verus!
