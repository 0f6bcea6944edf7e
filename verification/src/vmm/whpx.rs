//! The decisions of the Windows Hypervisor Platform backend: the registers that a virtual
//! processor starts with, and what to do when it exits.

use vstd::arithmetic::power::pow;
use vstd::prelude::*;
use vstd::slice::slice_subrange;

use crate::codec::{lemma_le_bytes_index, write_le};
use crate::text::{
    append_decimal, append_padded_hex, decimal, hex, law_padded_hex_reads_back, number_in,
    padded_hex,
};
use crate::vmm::common::boot::{
    BOOT_GDT_OFFSET, BOOT_IDT_OFFSET, BOOT_STACK_POINTER, PML4_START, ZERO_PAGE_START,
};
use crate::vmm::common::serial::{
    is_serial_port, register_value, Serial, SERIAL_PORT_BASE,
};
use crate::vmm::kvm::{in_long_mode, starts_at, GeneralRegisters, SpecialRegisters};
use crate::vmm::vcpu::{
    Hypervisor, GDT_LIMIT, IDT_LIMIT, INITIAL_RFLAGS, KCS_SELECTOR, KDS_SELECTOR, LONG_MODE_CR0,
    LONG_MODE_CR4, LONG_MODE_EFER, TSS_SELECTOR,
};

verus! {

/// A platform call that failed with the code `hr`.
#[derive(Debug, Clone, Copy, PartialEq, Eq, Structural)]
pub struct PlatformError {
    pub hr: i32,
}

impl PlatformError {
    /// The code as an unsigned number.
    pub open spec fn code(self) -> nat {
        if self.hr < 0 {
            (self.hr + 0x1_0000_0000) as nat
        } else {
            self.hr as nat
        }
    }

    /// The text that reports the failure of the call `op`.
    pub open spec fn text(self, op: Seq<char>) -> Seq<char> {
        op + " failed: HRESULT 0x"@ + padded_hex(self.code(), 8)
    }

    /// Reports the failure of the call `op` in words.
    pub fn message(&self, op: &str) -> (s: String)
        ensures
            s@ == self.text(op@),
    {
        let code: u64 = if self.hr < 0 {
            (self.hr as i64 + 0x1_0000_0000) as u64
        } else {
            self.hr as u64
        };
        let mut s = String::from_str(op);
        s.append(" failed: HRESULT 0x");
        append_padded_hex(&mut s, code, 8);
        s
    }
}

/// Tells from the code that a platform call returns whether it failed.
pub fn check(hr: i32) -> (r: Result<(), PlatformError>)
    ensures
        r == if hr == 0 {
            Ok::<(), PlatformError>(())
        } else {
            Err(PlatformError { hr })
        },
{
    if hr == 0 {
        Ok(())
    } else {
        Err(PlatformError { hr })
    }
}

/// A segment register.
#[derive(Debug, Clone, Copy, PartialEq, Eq, Structural)]
pub struct Segment {
    pub base: u64,
    pub limit: u32,
    pub selector: u16,
    pub attributes: u16,
}

/// A table register.
#[derive(Debug, Clone, Copy, PartialEq, Eq, Structural)]
pub struct Table {
    pub base: u64,
    pub limit: u16,
}

/// A register that is set before the processor starts.
#[derive(Debug, Clone, Copy, PartialEq, Eq, Structural)]
pub enum Register {
    Cs,
    Ds,
    Es,
    Fs,
    Gs,
    Ss,
    Tr,
    Ldtr,
    Gdtr,
    Idtr,
    Cr0,
    Cr3,
    Cr4,
    Efer,
    Rflags,
    Rip,
    Rsp,
    Rsi,
}

/// What a register is set to.
#[derive(Debug, Clone, Copy, PartialEq, Eq, Structural)]
pub enum Value {
    Segment(Segment),
    Table(Table),
    Word(u64),
}

/// A segment at address zero.
pub fn make_segment(selector: u16, attributes: u16, limit: u32) -> (s: Segment)
    ensures
        s == (Segment { base: 0, limit, selector, attributes }),
{
    Segment { base: 0, limit, selector, attributes }
}

/// A table at `base`.
pub fn make_table(base: u64, limit: u16) -> (t: Table)
    ensures
        t == (Table { base, limit }),
{
    Table { base, limit }
}

/// The kernel code segment: present, 64-bit, page granularity.
pub open spec fn code_segment() -> Value {
    Value::Segment(
        Segment { base: 0, limit: 0xffff_ffff, selector: KCS_SELECTOR, attributes: 0xa09b },
    )
}

/// The kernel data segment: present, writable, page granularity.
pub open spec fn data_segment() -> Value {
    Value::Segment(
        Segment { base: 0, limit: 0xffff_ffff, selector: KDS_SELECTOR, attributes: 0xc093 },
    )
}

/// The task state segment: present, busy.
pub open spec fn task_segment() -> Value {
    Value::Segment(Segment { base: 0, limit: 0x67, selector: TSS_SELECTOR, attributes: 0x008b })
}

/// The local descriptor table: present, empty selector.
pub open spec fn local_table() -> Value {
    Value::Segment(Segment { base: 0, limit: 0xffff, selector: 0, attributes: 0x0082 })
}

/// What `register` holds when the processor starts at `entry`.
pub open spec fn initial_value(register: Register, entry: u64) -> Value {
    match register {
        Register::Cs => code_segment(),
        Register::Ds => data_segment(),
        Register::Es => data_segment(),
        Register::Fs => data_segment(),
        Register::Gs => data_segment(),
        Register::Ss => data_segment(),
        Register::Tr => task_segment(),
        Register::Ldtr => local_table(),
        Register::Gdtr => Value::Table(Table { base: BOOT_GDT_OFFSET, limit: GDT_LIMIT }),
        Register::Idtr => Value::Table(Table { base: BOOT_IDT_OFFSET, limit: IDT_LIMIT }),
        Register::Cr0 => Value::Word(LONG_MODE_CR0),
        Register::Cr3 => Value::Word(PML4_START),
        Register::Cr4 => Value::Word(LONG_MODE_CR4),
        Register::Efer => Value::Word(LONG_MODE_EFER),
        Register::Rflags => Value::Word(INITIAL_RFLAGS),
        Register::Rip => Value::Word(entry),
        Register::Rsp => Value::Word(BOOT_STACK_POINTER),
        Register::Rsi => Value::Word(ZERO_PAGE_START),
    }
}

/// All registers that are set, in the order in which they are set.
pub open spec fn all_registers() -> Seq<Register> {
    seq![
        Register::Cs,
        Register::Ds,
        Register::Es,
        Register::Fs,
        Register::Gs,
        Register::Ss,
        Register::Tr,
        Register::Ldtr,
        Register::Gdtr,
        Register::Idtr,
        Register::Cr0,
        Register::Cr3,
        Register::Cr4,
        Register::Efer,
        Register::Rflags,
        Register::Rip,
        Register::Rsp,
        Register::Rsi,
    ]
}

/// The registers that a processor starts with at `entry`, and their values.
pub fn long_mode_registers(entry: u64) -> (r: Vec<(Register, Value)>)
    ensures
        r@ == all_registers().map_values(|g: Register| (g, initial_value(g, entry))),
{
    let cs = make_segment(KCS_SELECTOR, 0xa09b, 0xffff_ffff);
    let ds = make_segment(KDS_SELECTOR, 0xc093, 0xffff_ffff);
    let tr = make_segment(TSS_SELECTOR, 0x008b, 0x67);
    let ldt = make_segment(0, 0x0082, 0xffff);
    let gdt = make_table(BOOT_GDT_OFFSET, GDT_LIMIT);
    let idt = make_table(BOOT_IDT_OFFSET, IDT_LIMIT);
    let r: Vec<(Register, Value)> =
        vec![
        (Register::Cs, Value::Segment(cs)),
        (Register::Ds, Value::Segment(ds)),
        (Register::Es, Value::Segment(ds)),
        (Register::Fs, Value::Segment(ds)),
        (Register::Gs, Value::Segment(ds)),
        (Register::Ss, Value::Segment(ds)),
        (Register::Tr, Value::Segment(tr)),
        (Register::Ldtr, Value::Segment(ldt)),
        (Register::Gdtr, Value::Table(gdt)),
        (Register::Idtr, Value::Table(idt)),
        (Register::Cr0, Value::Word(LONG_MODE_CR0)),
        (Register::Cr3, Value::Word(PML4_START)),
        (Register::Cr4, Value::Word(LONG_MODE_CR4)),
        (Register::Efer, Value::Word(LONG_MODE_EFER)),
        (Register::Rflags, Value::Word(INITIAL_RFLAGS)),
        (Register::Rip, Value::Word(entry)),
        (Register::Rsp, Value::Word(BOOT_STACK_POINTER)),
        (Register::Rsi, Value::Word(ZERO_PAGE_START)),
    ];
    assert(r@ =~= all_registers().map_values(|g: Register| (g, initial_value(g, entry))));
    r
}

/// An exit of the processor.
#[derive(Debug, Clone, Copy, PartialEq, Eq, Structural)]
pub enum Exit {
    Nothing,
    Halt,
    UnrecoverableException,
    /// The instruction of `length` bytes at `rip` accesses `port`.
    PortAccess { rip: u64, length: u8, port: u16, access_info: u32, rax: u64 },
    /// The instruction of `length` bytes at `rip` accesses memory that is not there.
    MemoryAccess { rip: u64, length: u8, gpa: u64 },
    Canceled,
    Other { reason: i32 },
}

/// What to do after an exit.
#[derive(Debug)]
pub struct Action {
    /// The message to log.
    pub log: Option<String>,
    /// The byte for the console.
    pub console: Option<u8>,
    /// The new value of `rax`.
    pub rax: Option<u64>,
    /// The new value of `rip`.
    pub rip: Option<u64>,
    /// Whether the guest goes on.
    pub resume: bool,
}

/// The access writes.
pub open spec fn is_port_write(access_info: u32) -> bool {
    access_info % 2 == 1
}

impl Exit {
    /// The instruction behind the one that exited has an address.
    pub open spec fn has_next_rip(self) -> bool {
        match self {
            Exit::PortAccess { rip, length, .. } => rip + length <= u64::MAX,
            Exit::MemoryAccess { rip, length, .. } => rip + length <= u64::MAX,
            _ => true,
        }
    }

    /// The address of the next instruction, where the exit is to be skipped over.
    pub open spec fn next_rip(self) -> Option<u64> {
        match self {
            Exit::PortAccess { rip, length, .. } => Some((rip + length) as u64),
            Exit::MemoryAccess { rip, length, .. } => Some((rip + length) as u64),
            _ => None,
        }
    }

    /// The byte that the exit puts on the console.
    pub open spec fn console(self) -> Option<u8> {
        match self {
            Exit::PortAccess { port, access_info, rax, .. } => if port == SERIAL_PORT_BASE
                && is_port_write(access_info) {
                Some((rax % 256) as u8)
            } else {
                None
            },
            _ => None,
        }
    }

    /// What the exit reads into `rax`.
    pub open spec fn rax(self) -> Option<u64> {
        match self {
            Exit::PortAccess { port, access_info, .. } => if is_serial_port(port)
                && !is_port_write(access_info) {
                Some(register_value(port) as u64)
            } else {
                None
            },
            _ => None,
        }
    }

    /// The guest goes on after the exit.
    pub open spec fn resumes(self) -> bool {
        !(self is Halt || self is UnrecoverableException || self is Other)
    }

    /// What is said of the exit.
    pub open spec fn text(self) -> Option<Seq<char>> {
        let prefix = Hypervisor::Whpx.prefix();
        match self {
            Exit::Nothing => None,
            Exit::Halt => Some(prefix + "guest HLT"@),
            Exit::UnrecoverableException => Some(prefix + "guest unrecoverable exception"@),
            Exit::PortAccess { port, access_info, .. } => if is_serial_port(port) {
                None
            } else if is_port_write(access_info) {
                Some(prefix + "unhandled OUT 0x"@ + hex(port as nat))
            } else {
                Some(prefix + "unhandled IN 0x"@ + hex(port as nat))
            },
            Exit::MemoryAccess { gpa, .. } => Some(
                prefix + "unhandled MMIO @ 0x"@ + hex(gpa as nat),
            ),
            Exit::Canceled => Some(prefix + "run canceled, continuing"@),
            Exit::Other { reason } => Some(
                prefix + "unhandled exit reason "@ + if reason < 0 {
                    "-"@ + decimal((-reason) as nat)
                } else {
                    decimal(reason as nat)
                },
            ),
        }
    }
}

impl Action {
    /// The characters of the message, if there is one.
    pub open spec fn log_text(&self) -> Option<Seq<char>> {
        match self.log {
            None => None,
            Some(s) => Some(s@),
        }
    }
}

/// How many bytes an access claims to move: bits one to three of its description.
pub open spec fn claimed_bytes(access_info: u32) -> int {
    (access_info as int / 2) % 8
}

/// How many bytes an access moves, brought into the range that is supported.
fn access_bytes(access_info: u32) -> (n: usize)
    ensures
        n == if claimed_bytes(access_info) > 4 {
            4
        } else if claimed_bytes(access_info) < 1 {
            1
        } else {
            claimed_bytes(access_info)
        },
{
    let size: u32 = (access_info / 2) % 8;
    if size > 4 {
        4
    } else if size < 1 {
        1
    } else {
        size as usize
    }
}

/// Decides what to do after `exit`.
pub fn on_exit(serial: &Serial, exit: Exit) -> (a: Action)
    requires
        exit.has_next_rip(),
    ensures
        a.log_text() == exit.text(),
        a.console == exit.console(),
        a.rax == exit.rax(),
        a.rip == exit.next_rip(),
        a.resume == exit.resumes(),
{
    match exit {
        Exit::Nothing => Action { log: None, console: None, rax: None, rip: None, resume: true },
        Exit::Halt => stop(Hypervisor::Whpx.note("guest HLT")),
        Exit::UnrecoverableException => stop(
            Hypervisor::Whpx.note("guest unrecoverable exception"),
        ),
        Exit::PortAccess { rip, length, port, access_info, rax } => {
            let next: u64 = rip + length as u64;
            on_port_access(serial, next, port, access_info, rax)
        },
        Exit::MemoryAccess { rip, length, gpa } => Action {
            log: Some(Hypervisor::Whpx.note_at("unhandled MMIO @ 0x", gpa)),
            console: None,
            rax: None,
            rip: Some(rip + length as u64),
            resume: true,
        },
        Exit::Canceled => Action {
            log: Some(Hypervisor::Whpx.note("run canceled, continuing")),
            console: None,
            rax: None,
            rip: None,
            resume: true,
        },
        Exit::Other { reason } => {
            let mut s = Hypervisor::Whpx.note("unhandled exit reason ");
            if reason < 0 {
                let mut digits = String::from_str("-");
                append_decimal(&mut digits, (-(reason as i64)) as u64);
                s.append(digits.as_str());
            } else {
                append_decimal(&mut s, reason as u64);
            }
            stop(s)
        },
    }
}

/// The guest is over, and `log` says why.
fn stop(log: String) -> (a: Action)
    ensures
        a == (Action { log: Some(log), console: None, rax: None, rip: None, resume: false }),
{
    Action { log: Some(log), console: None, rax: None, rip: None, resume: false }
}

/// Decides what to do after a port access, with the next instruction at `next`.
fn on_port_access(serial: &Serial, next: u64, port: u16, access_info: u32, rax: u64) -> (a:
    Action)
    ensures
        a.log_text() == (Exit::PortAccess { rip: next, length: 0, port, access_info, rax }).text(),
        a.console == (Exit::PortAccess {
            rip: next,
            length: 0,
            port,
            access_info,
            rax,
        }).console(),
        a.rax == (Exit::PortAccess { rip: next, length: 0, port, access_info, rax }).rax(),
        a.rip == Some(next),
        a.resume,
{
    let is_write = access_info % 2 == 1;
    if Serial::handles(port) && is_write {
        let bytes: Vec<u8> = write_le(rax, 8);
        proof {
            lemma_le_bytes_index(rax as nat, 8, 0);
        }
        let n: usize = access_bytes(access_info);
        let console = serial.write(port, slice_subrange(bytes.as_slice(), 0, n));
        Action { log: None, console, rax: None, rip: Some(next), resume: true }
    } else if Serial::handles(port) {
        let mut bytes: [u8; 1] = [0];
        serial.read(port, &mut bytes);
        Action { log: None, console: None, rax: Some(bytes[0] as u64), rip: Some(next), resume: true }
    } else {
        let log = if is_write {
            Hypervisor::Whpx.note_at("unhandled OUT 0x", port as u64)
        } else {
            Hypervisor::Whpx.note_at("unhandled IN 0x", port as u64)
        };
        Action { log: Some(log), console: None, rax: None, rip: Some(next), resume: true }
    }
}

/// A segment register holds the same on this hypervisor, `here`, as on KVM, `there`.
pub open spec fn same_segment(here: Value, there: crate::vmm::kvm::Segment) -> bool {
    here matches Value::Segment(s) && {
        &&& s.base == there.base
        &&& s.limit == there.limit
        &&& s.selector == there.selector
        &&& s.attributes == there.attributes()
    }
}

/// A table register holds the same on this hypervisor, `here`, as on KVM, `there`.
pub open spec fn same_table(here: Value, there: crate::vmm::kvm::Table) -> bool {
    here matches Value::Table(t) && t.base == there.base && t.limit == there.limit
}

/// A processor starts in the same state under either hypervisor.
pub proof fn law_same_start_as_kvm(special: SpecialRegisters, general: GeneralRegisters, entry: u64)
    requires
        in_long_mode(special),
        starts_at(general, entry),
    ensures
        same_segment(initial_value(Register::Cs, entry), special.cs),
        same_segment(initial_value(Register::Ds, entry), special.ds),
        same_segment(initial_value(Register::Es, entry), special.es),
        same_segment(initial_value(Register::Fs, entry), special.fs),
        same_segment(initial_value(Register::Gs, entry), special.gs),
        same_segment(initial_value(Register::Ss, entry), special.ss),
        same_segment(initial_value(Register::Tr, entry), special.tr),
        same_table(initial_value(Register::Gdtr, entry), special.gdt),
        same_table(initial_value(Register::Idtr, entry), special.idt),
        initial_value(Register::Cr0, entry) == Value::Word(special.cr0),
        initial_value(Register::Cr3, entry) == Value::Word(special.cr3),
        initial_value(Register::Cr4, entry) == Value::Word(special.cr4),
        initial_value(Register::Efer, entry) == Value::Word(special.efer),
        initial_value(Register::Rflags, entry) == Value::Word(general.rflags),
        initial_value(Register::Rip, entry) == Value::Word(general.rip),
        initial_value(Register::Rsp, entry) == Value::Word(general.rsp),
        initial_value(Register::Rsi, entry) == Value::Word(general.rsi),
{
}

/// A guest that goes on never runs the same port or memory access again: it goes on
/// behind it.
pub proof fn law_handled_accesses_are_skipped(exit: Exit)
    requires
        exit.has_next_rip(),
        exit is PortAccess || exit is MemoryAccess,
    ensures
        exit.resumes(),
        exit matches Exit::PortAccess { rip, length, .. } ==> exit.next_rip() matches Some(next)
            && next - rip == length,
        exit matches Exit::MemoryAccess { rip, length, .. } ==> exit.next_rip() matches Some(next)
            && next - rip == length,
{
}

/// A write to port `0x3f8` puts the lowest byte of `rax` on the console. A read of a serial
/// port gives `0x60` from port `0x3fd` and zero from the others. No other access does
/// either.
pub proof fn law_port_accesses(rip: u64, length: u8, port: u16, access_info: u32, rax: u64)
    ensures
        ({
            let exit = Exit::PortAccess { rip, length, port, access_info, rax };
            let writes = access_info % 2 == 1;
            &&& port == 0x3f8 && writes ==> (exit.console() matches Some(b) && (rax - b) % 256 == 0)
            &&& port != 0x3f8 || !writes ==> exit.console() is None
            &&& port == 0x3fd && !writes ==> exit.rax() == Some(0x60u64)
            &&& 0x3f8 <= port < 0x400 && port != 0x3fd && !writes ==> exit.rax() == Some(0u64)
            &&& writes || port < 0x3f8 || port >= 0x400 ==> exit.rax() is None
            &&& rip + length <= u64::MAX ==> (exit.next_rip() matches Some(next) && next == rip
                + length)
            &&& exit.resumes()
            &&& exit.has_next_rip() <==> rip + length <= u64::MAX
        }),
{
}

/// What the other exits come to: only a halt, an exception and an exit that is not known end
/// the guest, and only a memory access moves it on.
pub proof fn law_other_exits(rip: u64, length: u8, gpa: u64, reason: i32)
    ensures
        Exit::Nothing.resumes() && Exit::Canceled.resumes(),
        !Exit::Halt.resumes() && !Exit::UnrecoverableException.resumes(),
        !(Exit::Other { reason }).resumes(),
        Exit::Nothing.next_rip() is None && Exit::Canceled.next_rip() is None,
        Exit::Nothing.console() is None && Exit::Canceled.console() is None,
        Exit::Nothing.rax() is None && Exit::Canceled.rax() is None,
        Exit::Nothing.text() is None,
        ({
            let access = Exit::MemoryAccess { rip, length, gpa };
            &&& access.resumes() && access.console() is None && access.rax() is None
            &&& rip + length <= u64::MAX ==> (access.next_rip() matches Some(next) && next == rip
                + length)
            &&& access.has_next_rip() <==> rip + length <= u64::MAX
        }),
        Exit::Nothing.has_next_rip() && Exit::Canceled.has_next_rip() && Exit::Halt.has_next_rip(),
        Exit::UnrecoverableException.has_next_rip() && (Exit::Other { reason }).has_next_rip(),
{
}

/// What is said of an exit tells the port or the address in hexadecimal, and an unknown
/// reason in decimal, with its sign. Of an access to a serial port nothing is said.
pub proof fn law_messages(rip: u64, length: u8, port: u16, access_info: u32, rax: u64, reason: i32)
    ensures
        ({
            let text = (Exit::PortAccess { rip, length, port, access_info, rax }).text();
            let serial = 0x3f8 <= port < 0x400;
            &&& serial ==> text is None
            &&& !serial && access_info % 2 == 1 ==> text == Some(
                "hyperpod[whpx]: unhandled OUT 0x"@ + hex(port as nat),
            )
            &&& !serial && access_info % 2 == 0 ==> text == Some(
                "hyperpod[whpx]: unhandled IN 0x"@ + hex(port as nat),
            )
        }),
        (Exit::MemoryAccess { rip, length, gpa: rax }).text() == Some(
            "hyperpod[whpx]: unhandled MMIO @ 0x"@ + hex(rax as nat),
        ),
        reason >= 0 ==> (Exit::Other { reason }).text() == Some(
            "hyperpod[whpx]: unhandled exit reason "@ + decimal(reason as nat),
        ),
        reason < 0 ==> (Exit::Other { reason }).text() == Some(
            "hyperpod[whpx]: unhandled exit reason -"@ + decimal((0 - reason) as nat),
        ),
{
    reveal_strlit("hyperpod[whpx]: ");
    reveal_strlit("hyperpod[whpx]: unhandled OUT 0x");
    reveal_strlit("hyperpod[whpx]: unhandled IN 0x");
    reveal_strlit("hyperpod[whpx]: unhandled MMIO @ 0x");
    reveal_strlit("hyperpod[whpx]: unhandled exit reason ");
    reveal_strlit("hyperpod[whpx]: unhandled exit reason -");
    reveal_strlit("unhandled OUT 0x");
    reveal_strlit("unhandled IN 0x");
    reveal_strlit("unhandled MMIO @ 0x");
    reveal_strlit("unhandled exit reason ");
    reveal_strlit("-");
    assert("hyperpod[whpx]: "@ + "unhandled OUT 0x"@ =~= "hyperpod[whpx]: unhandled OUT 0x"@);
    assert("hyperpod[whpx]: "@ + "unhandled IN 0x"@ =~= "hyperpod[whpx]: unhandled IN 0x"@);
    assert("hyperpod[whpx]: "@ + "unhandled MMIO @ 0x"@ =~= "hyperpod[whpx]: unhandled MMIO @ 0x"@);
    assert("hyperpod[whpx]: "@ + "unhandled exit reason "@
        =~= "hyperpod[whpx]: unhandled exit reason "@);
    let digits = decimal((0 - reason) as nat);
    assert("hyperpod[whpx]: "@ + "unhandled exit reason "@ + ("-"@ + digits)
        =~= "hyperpod[whpx]: unhandled exit reason -"@ + digits);
}

/// A failed call is told with eight hexadecimal digits that make up its code, taken modulo
/// two to the power of 32.
pub proof fn law_failed_calls(e: PlatformError, op: Seq<char>)
    ensures
        e.code() < 0x1_0000_0000,
        (e.code() - e.hr) % 0x1_0000_0000 == 0,
        e.text(op).len() == op.len() + 27,
        e.text(op).take(op.len() as int) == op,
        number_in(e.text(op).skip(op.len() + 19int), 16) == e.code(),
{
    reveal_strlit(" failed: HRESULT 0x");
    law_padded_hex_reads_back(e.code(), 8);
    assert(pow(16, 8) == 0x1_0000_0000) by {
        reveal(pow);
        reveal_with_fuel(pow, 9);
    }
    assert(e.text(op).skip(op.len() + 19int) =~= padded_hex(e.code(), 8));
    assert(e.text(op).take(op.len() as int) =~= op);
}

/// The bits that claim an access's size are the three above the lowest.
pub proof fn law_claimed_bytes(access_info: u32)
    ensures
        0 <= claimed_bytes(access_info) < 8,
        (access_info - 2 * claimed_bytes(access_info) - access_info % 2) % 16 == 0,
{
}

/// What each register is set to: flat 64-bit code and data, an empty local table, paging on
/// through the tables at `0x9000`, and the processor at `entry`.
pub proof fn law_start_state(entry: u64)
    ensures
        initial_value(Register::Cs, entry) == Value::Segment(
            Segment { base: 0, limit: 0xffff_ffff, selector: 8, attributes: 0xa09b },
        ),
        forall|g: Register|
            g is Ds || g is Es || g is Fs || g is Gs || g is Ss ==> #[trigger] initial_value(
                g,
                entry,
            ) == Value::Segment(
                Segment { base: 0, limit: 0xffff_ffff, selector: 16, attributes: 0xc093 },
            ),
        initial_value(Register::Tr, entry) == Value::Segment(
            Segment { base: 0, limit: 0x67, selector: 24, attributes: 0x008b },
        ),
        initial_value(Register::Ldtr, entry) == Value::Segment(
            Segment { base: 0, limit: 0xffff, selector: 0, attributes: 0x0082 },
        ),
        initial_value(Register::Gdtr, entry) == Value::Table(Table { base: 0x500, limit: 31 }),
        initial_value(Register::Idtr, entry) == Value::Table(Table { base: 0x520, limit: 7 }),
        initial_value(Register::Cr0, entry) == Value::Word(0x8000_0001),
        initial_value(Register::Cr3, entry) == Value::Word(0x9000),
        initial_value(Register::Cr4, entry) == Value::Word(0x20),
        initial_value(Register::Efer, entry) == Value::Word(0x500),
        initial_value(Register::Rflags, entry) == Value::Word(2),
        initial_value(Register::Rip, entry) == Value::Word(entry),
        initial_value(Register::Rsp, entry) == Value::Word(0x8ff0),
        initial_value(Register::Rsi, entry) == Value::Word(0x7000),
{
}

/// Every register is set, and none twice.
pub proof fn law_each_register_is_set_once(g: Register)
    ensures
        all_registers().contains(g),
        all_registers().no_duplicates(),
{
    let all = all_registers();
    assert(all[0] is Cs && all[1] is Ds && all[2] is Es && all[3] is Fs && all[4] is Gs && all[5]
        is Ss && all[6] is Tr && all[7] is Ldtr && all[8] is Gdtr && all[9] is Idtr && all[10]
        is Cr0 && all[11] is Cr3 && all[12] is Cr4 && all[13] is Efer && all[14] is Rflags
        && all[15] is Rip && all[16] is Rsp && all[17] is Rsi);
}

} // verus!
