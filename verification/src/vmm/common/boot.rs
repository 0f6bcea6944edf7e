//! Boot tables: descriptor table, page tables, command line and boot parameters.

use vstd::prelude::*;
use vstd::utf8::encode_utf8;

use crate::codec::{
    eight_bytes, four_bytes, le_bytes, lemma_le_bytes_len, lemma_le_value_of_le_bytes,
    lemma_pow256_values, two_bytes,
};
use crate::vmm::common::elf::{elf_header, load_image, segment, ElfError, LoadedKernel};
use crate::vmm::common::ram::{
    access_result, is_ram_size, load, overwrite, Access, GuestRam, RamError,
};

verus! {

// Low-memory layout of the boot artefacts.
pub const BOOT_GDT_OFFSET: u64 = 0x500;

pub const BOOT_IDT_OFFSET: u64 = 0x520;

pub const ZERO_PAGE_START: u64 = 0x7000;

pub const BOOT_STACK_POINTER: u64 = 0x8ff0;

pub const PML4_START: u64 = 0x9000;

pub const PDPTE_START: u64 = 0xa000;

pub const PDE_START: u64 = 0xb000;

pub const CMDLINE_START: u64 = 0x20000;

pub const HIMEM_START: u64 = 0x100000;

// Linux x86 boot protocol.
pub const KERNEL_HDR_MAGIC: u32 = 0x5372_6448;  // "HdrS"

pub const KERNEL_BOOT_FLAG_MAGIC: u16 = 0xaa55;

pub const KERNEL_LOADER_OTHER: u8 = 0xff;

pub const KERNEL_MIN_ALIGN: u32 = 0x0100_0000;

pub const BOOT_PROTOCOL_VERSION: u16 = 0x020c;

pub const E820_RAM: u32 = 1;

// Offsets within the boot parameters.
pub const OFFSET_E820_ENTRIES: u64 = 0x1e8;

pub const OFFSET_HDR_BOOT_FLAG: u64 = 0x1fe;

pub const OFFSET_HDR_HEADER: u64 = 0x202;

pub const OFFSET_HDR_VERSION: u64 = 0x206;

pub const OFFSET_HDR_TYPE_OF_LOADER: u64 = 0x210;

pub const OFFSET_HDR_CMD_LINE_PTR: u64 = 0x228;

pub const OFFSET_HDR_KERNEL_ALIGNMENT: u64 = 0x230;

pub const OFFSET_HDR_CMDLINE_SIZE: u64 = 0x238;

pub const OFFSET_E820_TABLE: u64 = 0x2d0;

/// Bytes that one entry of the page directory maps.
pub const HUGE_PAGE: u64 = 0x20_0000;

/// Present and writable.
pub const PAGE_TABLE_FLAGS: u64 = 0x3;

/// Present, writable and huge.
pub const HUGE_PAGE_FLAGS: u64 = 0x83;

/// Entries of a page directory.
pub const PDE_COUNT: u64 = 512;

/// Memory after the `width`-byte integer `v` was stored at `gpa`.
pub open spec fn store(mem: Seq<u8>, gpa: int, v: nat, width: nat) -> Seq<u8> {
    overwrite(mem, gpa, le_bytes(v, width))
}

/// `n` 64-bit integers in a row, the one at position `i` being `entry(i)`.
pub open spec fn u64_table(n: nat, entry: spec_fn(int) -> nat) -> Seq<u8> {
    Seq::new(8 * n, |k: int| le_bytes(entry(k / 8), 8)[k % 8])
}

/// The descriptors: null, 64-bit kernel code, kernel data, task state; the one slot
/// behind them is the empty interrupt table.
pub open spec fn gdt_entry(i: int) -> nat {
    if i == 1 {
        0x00af_9b00_0000_ffff
    } else if i == 2 {
        0x00cf_9300_0000_ffff
    } else if i == 3 {
        0x0080_8900_0000_0067
    } else {
        0
    }
}

/// Memory `mem` with the descriptor tables in it.
pub open spec fn with_gdt(mem: Seq<u8>) -> Seq<u8> {
    overwrite(mem, BOOT_GDT_OFFSET as int, u64_table(5, |i: int| gdt_entry(i)))
}

/// Page directory entry `i`: huge page `i`, at its own address.
pub open spec fn pd_entry(i: int) -> nat {
    (i * HUGE_PAGE + HUGE_PAGE_FLAGS) as nat
}

/// Memory `mem` with the page tables in it.
pub open spec fn with_page_tables(mem: Seq<u8>) -> Seq<u8> {
    let top = store(mem, PML4_START as int, (PDPTE_START + PAGE_TABLE_FLAGS) as nat, 8);
    let middle = store(top, PDPTE_START as int, (PDE_START + PAGE_TABLE_FLAGS) as nat, 8);
    overwrite(middle, PDE_START as int, u64_table(PDE_COUNT as nat, |i: int| pd_entry(i)))
}

/// Memory after the attempt to put the command line `text` and a zero byte behind it
/// into `mem`, and how the attempt ended.
pub open spec fn cmdline_attempt(mem: Seq<u8>, text: Seq<u8>) -> (Seq<u8>, Result<(), RamError>) {
    match access_result(Access::Write, mem.len(), CMDLINE_START, text.len()) {
        Err(e) => (mem, Err(e)),
        Ok(_) => {
            let written = overwrite(mem, CMDLINE_START as int, text);
            let end = (CMDLINE_START + text.len()) as u64;
            match access_result(Access::Write, mem.len(), end, 1) {
                Err(e) => (written, Err(e)),
                Ok(_) => (store(written, end as int, 0, 1), Ok(())),
            }
        },
    }
}

/// Memory `mem` with the setup header's fields in the boot parameters.
pub open spec fn with_setup_header(mem: Seq<u8>, cmdline_len: nat) -> Seq<u8> {
    let base = ZERO_PAGE_START;
    let m = store(mem, base + OFFSET_HDR_BOOT_FLAG, KERNEL_BOOT_FLAG_MAGIC as nat, 2);
    let m = store(m, base + OFFSET_HDR_HEADER, KERNEL_HDR_MAGIC as nat, 4);
    let m = store(m, base + OFFSET_HDR_VERSION, BOOT_PROTOCOL_VERSION as nat, 2);
    let m = store(m, base + OFFSET_HDR_TYPE_OF_LOADER, KERNEL_LOADER_OTHER as nat, 1);
    let m = store(m, base + OFFSET_HDR_KERNEL_ALIGNMENT, KERNEL_MIN_ALIGN as nat, 4);
    let m = store(m, base + OFFSET_HDR_CMD_LINE_PTR, CMDLINE_START as nat, 4);
    store(m, base + OFFSET_HDR_CMDLINE_SIZE, cmdline_len % 0x1_0000_0000, 4)
}

/// Memory `mem` with the memory map in the boot parameters: one entry for what lies
/// above the first mebibyte, or none where nothing does.
pub open spec fn with_memory_map(mem: Seq<u8>, ram_bytes: u64) -> Seq<u8> {
    let table = ZERO_PAGE_START + OFFSET_E820_TABLE;
    let count = ZERO_PAGE_START + OFFSET_E820_ENTRIES;
    if ram_bytes > HIMEM_START {
        let m = store(mem, table, HIMEM_START as nat, 8);
        let m = store(m, table + 8, (ram_bytes - HIMEM_START) as nat, 8);
        let m = store(m, table + 16, E820_RAM as nat, 4);
        store(m, count, 1, 1)
    } else {
        store(mem, count, 0, 1)
    }
}

/// Memory `mem` with the boot parameters in it.
pub open spec fn with_zero_page(mem: Seq<u8>, cmdline_len: nat, ram_bytes: u64) -> Seq<u8> {
    with_memory_map(with_setup_header(mem, cmdline_len), ram_bytes)
}

proof fn lemma_table_grows(mem: Seq<u8>, at: int, n: nat, entry: spec_fn(int) -> nat)
    requires
        0 <= at,
        at + 8 * n + 8 <= mem.len(),
    ensures
        store(overwrite(mem, at, u64_table(n, entry)), at + 8 * n, entry(n as int), 8)
            == overwrite(mem, at, u64_table(n + 1, entry)),
{
    lemma_le_bytes_len(entry(n as int), 8);
    let a = store(overwrite(mem, at, u64_table(n, entry)), at + 8 * n, entry(n as int), 8);
    let b = overwrite(mem, at, u64_table(n + 1, entry));
    assert forall|i: int| 0 <= i < mem.len() implies a[i] == b[i] by {
        let k = i - at;
        if 8 * n <= k < 8 * n + 8 {
            assert(k / 8 == n && k % 8 == k - 8 * n);
        }
    }
    assert(a =~= b);
}

/// Writes the boot descriptor tables.
pub fn write_gdt(ram: &mut GuestRam) -> (r: Result<(), RamError>)
    ensures
        r == Ok::<(), RamError>(()),
        final(ram)@ == with_gdt(old(ram)@),
{
    // null / 64-bit kernel code (L=1) / kernel data / TSS, and the empty IDT.
    let entries: [u64; 5] = [
        0,
        0x00af_9b00_0000_ffff,
        0x00cf_9300_0000_ffff,
        0x0080_8900_0000_0067,
        0,
    ];
    let size = ram.size();
    let ghost mem = ram@;
    let ghost entry = |i: int| gdt_entry(i);
    assert(mem =~= overwrite(mem, BOOT_GDT_OFFSET as int, u64_table(0, entry)));
    let mut i: usize = 0;
    while i < 5
        invariant
            i <= 5,
            size >= 0x10_0000,
            mem.len() == size,
            mem == old(ram)@,
            entry == (|i: int| gdt_entry(i)),
            forall|j: int| 0 <= j < 5 ==> entries@[j] == gdt_entry(j),
            ram@ == overwrite(mem, BOOT_GDT_OFFSET as int, u64_table(i as nat, entry)),
        decreases 5 - i,
    {
        proof {
            lemma_table_grows(mem, BOOT_GDT_OFFSET as int, i as nat, entry);
            lemma_le_bytes_len(gdt_entry(i as int), 8);
        }
        match ram.write_obj(BOOT_GDT_OFFSET + i as u64 * 8, entries[i]) {
            Ok(_) => {},
            Err(e) => return Err(e),
        }
        i = i + 1;
    }
    Ok(())
}

/// Writes page tables that map the first GiB to itself by huge pages.
pub fn setup_page_tables(ram: &mut GuestRam) -> (r: Result<(), RamError>)
    ensures
        r == Ok::<(), RamError>(()),
        final(ram)@ == with_page_tables(old(ram)@),
{
    let size = ram.size();
    proof {
        lemma_le_bytes_len((PDPTE_START + PAGE_TABLE_FLAGS) as nat, 8);
        lemma_le_bytes_len((PDE_START + PAGE_TABLE_FLAGS) as nat, 8);
    }
    match ram.write_obj::<u64>(PML4_START, PDPTE_START + PAGE_TABLE_FLAGS) {
        Ok(_) => {},
        Err(e) => return Err(e),
    }
    match ram.write_obj::<u64>(PDPTE_START, PDE_START + PAGE_TABLE_FLAGS) {
        Ok(_) => {},
        Err(e) => return Err(e),
    }
    let ghost mem = ram@;
    let ghost entry = |i: int| pd_entry(i);
    assert(mem =~= overwrite(mem, PDE_START as int, u64_table(0, entry)));
    let mut i: u64 = 0;
    while i < PDE_COUNT
        invariant
            i <= PDE_COUNT,
            size >= 0x10_0000,
            mem.len() == size,
            entry == (|i: int| pd_entry(i)),
            ram@ == overwrite(mem, PDE_START as int, u64_table(i as nat, entry)),
            with_page_tables(old(ram)@) == overwrite(
                mem,
                PDE_START as int,
                u64_table(PDE_COUNT as nat, entry),
            ),
        decreases PDE_COUNT - i,
    {
        proof {
            lemma_table_grows(mem, PDE_START as int, i as nat, entry);
            lemma_le_bytes_len(pd_entry(i as int), 8);
        }
        match ram.write_obj::<u64>(PDE_START + i * 8, i * HUGE_PAGE + HUGE_PAGE_FLAGS) {
            Ok(_) => {},
            Err(e) => return Err(e),
        }
        i = i + 1;
    }
    Ok(())
}

/// Writes the kernel command line with a zero byte behind it.
pub fn write_cmdline(ram: &mut GuestRam, cmdline: &str) -> (r: Result<(), RamError>)
    ensures
        r == cmdline_attempt(old(ram)@, encode_utf8(cmdline@)).1,
        final(ram)@ == cmdline_attempt(old(ram)@, encode_utf8(cmdline@)).0,
{
    let bytes = cmdline.as_bytes();
    match ram.write_slice(CMDLINE_START, bytes) {
        Ok(_) => {},
        Err(e) => return Err(e),
    }
    proof {
        lemma_le_bytes_len(0, 1);
    }
    ram.write_obj::<u8>(CMDLINE_START + bytes.len() as u64, 0)
}

/// Writes the boot parameters for a command line of `cmdline_len` bytes and
/// `ram_bytes` of guest memory.
pub fn write_zero_page(ram: &mut GuestRam, cmdline_len: usize, ram_bytes: u64) -> (r: Result<
    (),
    RamError,
>)
    ensures
        r == Ok::<(), RamError>(()),
        final(ram)@ == with_zero_page(old(ram)@, cmdline_len as nat, ram_bytes),
{
    let size = ram.size();
    proof {
        lemma_le_bytes_len(KERNEL_BOOT_FLAG_MAGIC as nat, 2);
        lemma_le_bytes_len(KERNEL_HDR_MAGIC as nat, 4);
        lemma_le_bytes_len(BOOT_PROTOCOL_VERSION as nat, 2);
        lemma_le_bytes_len(KERNEL_LOADER_OTHER as nat, 1);
        lemma_le_bytes_len(KERNEL_MIN_ALIGN as nat, 4);
        lemma_le_bytes_len(CMDLINE_START as nat, 4);
        lemma_le_bytes_len(cmdline_len as nat % 0x1_0000_0000, 4);
    }
    let base: u64 = ZERO_PAGE_START;
    match ram.write_obj::<u16>(base + OFFSET_HDR_BOOT_FLAG, KERNEL_BOOT_FLAG_MAGIC) {
        Ok(_) => {},
        Err(e) => return Err(e),
    }
    match ram.write_obj::<u32>(base + OFFSET_HDR_HEADER, KERNEL_HDR_MAGIC) {
        Ok(_) => {},
        Err(e) => return Err(e),
    }
    match ram.write_obj::<u16>(base + OFFSET_HDR_VERSION, BOOT_PROTOCOL_VERSION) {
        Ok(_) => {},
        Err(e) => return Err(e),
    }
    match ram.write_obj::<u8>(base + OFFSET_HDR_TYPE_OF_LOADER, KERNEL_LOADER_OTHER) {
        Ok(_) => {},
        Err(e) => return Err(e),
    }
    match ram.write_obj::<u32>(base + OFFSET_HDR_KERNEL_ALIGNMENT, KERNEL_MIN_ALIGN) {
        Ok(_) => {},
        Err(e) => return Err(e),
    }
    match ram.write_obj::<u32>(base + OFFSET_HDR_CMD_LINE_PTR, CMDLINE_START as u32) {
        Ok(_) => {},
        Err(e) => return Err(e),
    }
    let cmdline_size: u32 = (cmdline_len as u64 % 0x1_0000_0000) as u32;
    match ram.write_obj::<u32>(base + OFFSET_HDR_CMDLINE_SIZE, cmdline_size) {
        Ok(_) => {},
        Err(e) => return Err(e),
    }
    assert(ram@ == with_setup_header(old(ram)@, cmdline_len as nat));
    write_memory_map(ram, ram_bytes)
}

fn write_memory_map(ram: &mut GuestRam, ram_bytes: u64) -> (r: Result<(), RamError>)
    ensures
        r == Ok::<(), RamError>(()),
        final(ram)@ == with_memory_map(old(ram)@, ram_bytes),
{
    let size = ram.size();
    let base: u64 = ZERO_PAGE_START;
    proof {
        lemma_le_bytes_len(HIMEM_START as nat, 8);
        lemma_le_bytes_len((ram_bytes - HIMEM_START) as nat, 8);
        lemma_le_bytes_len(E820_RAM as nat, 4);
        lemma_le_bytes_len(1, 1);
        lemma_le_bytes_len(0, 1);
    }
    let mut count: u8 = 0;
    if ram_bytes > HIMEM_START {
        let entry_off: u64 = base + OFFSET_E820_TABLE;
        match ram.write_obj::<u64>(entry_off, HIMEM_START) {
            Ok(_) => {},
            Err(e) => return Err(e),
        }
        match ram.write_obj::<u64>(entry_off + 8, ram_bytes - HIMEM_START) {
            Ok(_) => {},
            Err(e) => return Err(e),
        }
        match ram.write_obj::<u32>(entry_off + 16, E820_RAM) {
            Ok(_) => {},
            Err(e) => return Err(e),
        }
        count = 1;
    }
    ram.write_obj::<u8>(base + OFFSET_E820_ENTRIES, count)
}

/// Why the guest could not be made ready to boot.
#[derive(Debug, Clone, Copy, PartialEq, Eq, Structural)]
pub enum BootError {
    /// The command line does not fit guest memory.
    Ram(RamError),
    /// The kernel image cannot be loaded.
    Elf(ElfError),
}

impl BootError {
    /// The text that reports the error for the kernel image at `path`.
    pub open spec fn text(self, path: Seq<char>) -> Seq<char> {
        match self {
            BootError::Ram(e) => e.text(),
            BootError::Elf(e) => e.text(path),
        }
    }

    /// Reports the error in words, for the kernel image at `path`.
    pub fn message(&self, path: &str) -> (s: String)
        ensures
            s@ == self.text(path@),
    {
        match *self {
            BootError::Ram(e) => e.message(),
            BootError::Elf(e) => e.message(path),
        }
    }
}

/// Memory `mem` with the descriptor and page tables, the command line `text` and the
/// boot parameters in it, if the command line fits.
pub open spec fn with_boot_tables(mem: Seq<u8>, text: Seq<u8>) -> (Seq<u8>, Result<(), RamError>) {
    let (m, end) = cmdline_attempt(with_page_tables(with_gdt(mem)), text);
    match end {
        Err(e) => (m, Err(e)),
        Ok(_) => (with_zero_page(m, text.len(), mem.len() as u64), Ok(())),
    }
}

/// Memory `mem` after the attempt to make it ready to boot, and how that ended.
pub open spec fn boot_image(mem: Seq<u8>, text: Seq<u8>, kernel: Seq<u8>) -> (
    Seq<u8>,
    Result<LoadedKernel, BootError>,
) {
    match with_boot_tables(mem, text) {
        (m, Err(e)) => (m, Err(BootError::Ram(e))),
        (m, Ok(_)) => match load_image(kernel, m) {
            (loaded, Err(e)) => (loaded, Err(BootError::Elf(e))),
            (loaded, Ok(k)) => (loaded, Ok(k)),
        },
    }
}

/// Makes guest memory ready to boot: the descriptor and page tables, the command line,
/// the boot parameters for all of the memory, and the kernel image.
pub fn prepare_guest(ram: &mut GuestRam, cmdline: &str, kernel: &[u8]) -> (r: Result<
    LoadedKernel,
    BootError,
>)
    ensures
        r == boot_image(old(ram)@, encode_utf8(cmdline@), kernel@).1,
        final(ram)@ == boot_image(old(ram)@, encode_utf8(cmdline@), kernel@).0,
{
    let size = ram.size();
    match write_gdt(ram) {
        Ok(_) => {},
        Err(e) => return Err(BootError::Ram(e)),
    }
    match setup_page_tables(ram) {
        Ok(_) => {},
        Err(e) => return Err(BootError::Ram(e)),
    }
    match write_cmdline(ram, cmdline) {
        Ok(_) => {},
        Err(e) => return Err(BootError::Ram(e)),
    }
    let cmdline_len: usize = cmdline.as_bytes().len();
    match write_zero_page(ram, cmdline_len, size as u64) {
        Ok(_) => {},
        Err(e) => return Err(BootError::Ram(e)),
    }
    match crate::vmm::common::elf::load(kernel, ram) {
        Ok(k) => Ok(k),
        Err(e) => Err(BootError::Elf(e)),
    }
}

/// A load gives the integer that the bytes at its place spell.
proof fn lemma_load_spelled(mem: Seq<u8>, gpa: int, v: nat, width: nat)
    requires
        0 <= gpa,
        gpa + width <= mem.len() <= usize::MAX,
        gpa <= u64::MAX,
        v < crate::codec::pow256(width),
        mem.subrange(gpa, gpa + width) =~= le_bytes(v, width),
    ensures
        load(mem, gpa as u64, width) == Ok::<nat, RamError>(v),
{
    lemma_le_value_of_le_bytes(v, width);
}

/// The entries of a table that was written are there to load.
proof fn lemma_load_table(mem: Seq<u8>, at: u64, n: nat, entry: spec_fn(int) -> nat, i: nat)
    requires
        i < n,
        at + 8 * n <= mem.len() <= usize::MAX,
        entry(i as int) <= u64::MAX,
    ensures
        load(overwrite(mem, at as int, u64_table(n, entry)), (at + 8 * i) as u64, 8) == Ok::<
            nat,
            RamError,
        >(entry(i as int)),
{
    let m = overwrite(mem, at as int, u64_table(n, entry));
    let gpa = at + 8 * i;
    lemma_le_bytes_len(entry(i as int), 8);
    lemma_pow256_values();
    lemma_le_value_of_le_bytes(entry(i as int), 8);
    let word = m.subrange(gpa, gpa + 8);
    assert forall|k: int| 0 <= k < 8 implies word[k] == #[trigger] le_bytes(
        entry(i as int),
        8,
    )[k] by {
        assert((8 * i + k) / 8 == i && (8 * i + k) % 8 == k);
    }
    assert(word =~= le_bytes(entry(i as int), 8));
}

/// The boot parameters say what the boot protocol asks for: the magic numbers, where
/// the command line is and how long it is, and which memory the kernel may use.
pub open spec fn has_zero_page(mem: Seq<u8>, cmdline_len: nat, ram_bytes: u64) -> bool {
    let base = ZERO_PAGE_START;
    &&& load(mem, (base + OFFSET_HDR_BOOT_FLAG) as u64, 2) == Ok::<nat, RamError>(0xaa55)
    &&& load(mem, (base + OFFSET_HDR_HEADER) as u64, 4) == Ok::<nat, RamError>(0x5372_6448)
    &&& load(mem, (base + OFFSET_HDR_VERSION) as u64, 2) == Ok::<nat, RamError>(0x020c)
    &&& load(mem, (base + OFFSET_HDR_TYPE_OF_LOADER) as u64, 1) == Ok::<nat, RamError>(0xff)
    &&& load(mem, (base + OFFSET_HDR_KERNEL_ALIGNMENT) as u64, 4) == Ok::<nat, RamError>(
        0x0100_0000,
    )
    &&& load(mem, (base + OFFSET_HDR_CMD_LINE_PTR) as u64, 4) == Ok::<nat, RamError>(
        CMDLINE_START as nat,
    )
    &&& load(mem, (base + OFFSET_HDR_CMDLINE_SIZE) as u64, 4) == Ok::<nat, RamError>(
        cmdline_len % 0x1_0000_0000,
    )
    &&& load(mem, (base + OFFSET_E820_ENTRIES) as u64, 1) == Ok::<nat, RamError>(
        if ram_bytes > HIMEM_START {
            1
        } else {
            0
        },
    )
    &&& ram_bytes > HIMEM_START ==> {
        &&& load(mem, (base + OFFSET_E820_TABLE) as u64, 8) == Ok::<nat, RamError>(
            HIMEM_START as nat,
        )
        &&& load(mem, (base + OFFSET_E820_TABLE + 8) as u64, 8) == Ok::<nat, RamError>(
            (ram_bytes - HIMEM_START) as nat,
        )
        &&& load(mem, (base + OFFSET_E820_TABLE + 16) as u64, 4) == Ok::<nat, RamError>(
            E820_RAM as nat,
        )
    }
}

/// `after` differs from `before` between `from` and `to` only.
pub open spec fn same_outside(before: Seq<u8>, after: Seq<u8>, from: int, to: int) -> bool {
    &&& before.len() == after.len()
    &&& forall|i: int|
        0 <= i < before.len() && !(from <= i < to) ==> #[trigger] after[i] == before[i]
}

/// Writing the boot parameters puts each field where the boot protocol looks for it,
/// and touches no memory outside their page.
pub proof fn law_zero_page(mem: Seq<u8>, cmdline_len: nat, ram_bytes: u64)
    requires
        is_ram_size(mem.len()),
        mem.len() <= usize::MAX,
    ensures
        has_zero_page(with_zero_page(mem, cmdline_len, ram_bytes), cmdline_len, ram_bytes),
        same_outside(
            mem,
            with_zero_page(mem, cmdline_len, ram_bytes),
            ZERO_PAGE_START as int,
            ZERO_PAGE_START + 0x1000,
        ),
{
    let m = with_zero_page(mem, cmdline_len, ram_bytes);
    let base = ZERO_PAGE_START;
    let above = (ram_bytes - HIMEM_START) as nat;
    let size = cmdline_len % 0x1_0000_0000;
    lemma_pow256_values();
    lemma_le_bytes_len(KERNEL_BOOT_FLAG_MAGIC as nat, 2);
    lemma_le_bytes_len(KERNEL_HDR_MAGIC as nat, 4);
    lemma_le_bytes_len(BOOT_PROTOCOL_VERSION as nat, 2);
    lemma_le_bytes_len(KERNEL_LOADER_OTHER as nat, 1);
    lemma_le_bytes_len(KERNEL_MIN_ALIGN as nat, 4);
    lemma_le_bytes_len(CMDLINE_START as nat, 4);
    lemma_le_bytes_len(size, 4);
    lemma_le_bytes_len(HIMEM_START as nat, 8);
    lemma_le_bytes_len(above, 8);
    lemma_le_bytes_len(E820_RAM as nat, 4);
    lemma_le_bytes_len(1, 1);
    lemma_le_bytes_len(0, 1);
    lemma_load_spelled(m, base + OFFSET_HDR_BOOT_FLAG, KERNEL_BOOT_FLAG_MAGIC as nat, 2);
    lemma_load_spelled(m, base + OFFSET_HDR_HEADER, KERNEL_HDR_MAGIC as nat, 4);
    lemma_load_spelled(m, base + OFFSET_HDR_VERSION, BOOT_PROTOCOL_VERSION as nat, 2);
    lemma_load_spelled(m, base + OFFSET_HDR_TYPE_OF_LOADER, KERNEL_LOADER_OTHER as nat, 1);
    lemma_load_spelled(m, base + OFFSET_HDR_KERNEL_ALIGNMENT, KERNEL_MIN_ALIGN as nat, 4);
    lemma_load_spelled(m, base + OFFSET_HDR_CMD_LINE_PTR, CMDLINE_START as nat, 4);
    lemma_load_spelled(m, base + OFFSET_HDR_CMDLINE_SIZE, size, 4);
    if ram_bytes > HIMEM_START {
        lemma_load_spelled(m, base + OFFSET_E820_ENTRIES, 1, 1);
        lemma_load_spelled(m, base + OFFSET_E820_TABLE, HIMEM_START as nat, 8);
        lemma_load_spelled(m, base + OFFSET_E820_TABLE + 8, above, 8);
        lemma_load_spelled(m, base + OFFSET_E820_TABLE + 16, E820_RAM as nat, 4);
    } else {
        lemma_load_spelled(m, base + OFFSET_E820_ENTRIES, 0, 1);
    }
}

/// The descriptor tables are in memory where the processor is told to look, and
/// nothing else has changed.
pub proof fn law_gdt(mem: Seq<u8>, i: nat)
    requires
        is_ram_size(mem.len()),
        mem.len() <= usize::MAX,
        i < 4,
    ensures
        load(with_gdt(mem), (BOOT_GDT_OFFSET + 8 * i) as u64, 8) == Ok::<nat, RamError>(
            gdt_entry(i as int),
        ),
        load(with_gdt(mem), BOOT_IDT_OFFSET, 8) == Ok::<nat, RamError>(0),
        same_outside(mem, with_gdt(mem), BOOT_GDT_OFFSET as int, BOOT_IDT_OFFSET + 8),
{
    lemma_load_table(mem, BOOT_GDT_OFFSET, 5, |i: int| gdt_entry(i), i);
    lemma_load_table(mem, BOOT_GDT_OFFSET, 5, |i: int| gdt_entry(i), 4);
}

/// Translating any address of the first GiB through the page tables gives the same
/// address: its top-level entry leads to the middle table, that one's first entry to
/// the page directory, and there the address's huge page is mapped to itself. Only
/// the tables' own pages are written.
pub proof fn law_identity_map(mem: Seq<u8>, vaddr: u64)
    requires
        is_ram_size(mem.len()),
        mem.len() <= usize::MAX,
        vaddr < 0x4000_0000,
    ensures
        load(with_page_tables(mem), PML4_START, 8) == Ok::<nat, RamError>(
            (PDPTE_START + PAGE_TABLE_FLAGS) as nat,
        ),
        load(with_page_tables(mem), PDPTE_START, 8) == Ok::<nat, RamError>(
            (PDE_START + PAGE_TABLE_FLAGS) as nat,
        ),
        load(
            with_page_tables(mem),
            (PDE_START + 8 * (vaddr as int / HUGE_PAGE as int)) as u64,
            8,
        ) matches Ok(e) && e - HUGE_PAGE_FLAGS + vaddr as int % HUGE_PAGE as int == vaddr,
        same_outside(mem, with_page_tables(mem), PML4_START as int, PDE_START + 0x1000),
{
    let v1 = (PDPTE_START + PAGE_TABLE_FLAGS) as nat;
    let v2 = (PDE_START + PAGE_TABLE_FLAGS) as nat;
    lemma_pow256_values();
    lemma_le_bytes_len(v1, 8);
    lemma_le_bytes_len(v2, 8);
    let entry = |i: int| pd_entry(i);
    let m2 = store(store(mem, PML4_START as int, v1, 8), PDPTE_START as int, v2, 8);
    let m = with_page_tables(mem);
    lemma_load_spelled(m, PML4_START as int, v1, 8);
    lemma_load_spelled(m, PDPTE_START as int, v2, 8);
    let i = vaddr as int / HUGE_PAGE as int;
    lemma_load_table(m2, PDE_START, PDE_COUNT as nat, entry, i as nat);
}

/// A command line that fits is in memory with a zero byte behind it, and nothing else
/// has changed.
pub proof fn law_cmdline(mem: Seq<u8>, text: Seq<u8>)
    requires
        CMDLINE_START + text.len() + 1 <= mem.len() <= usize::MAX,
    ensures
        cmdline_attempt(mem, text).1 is Ok,
        cmdline_attempt(mem, text).0.subrange(CMDLINE_START as int, CMDLINE_START + text.len())
            == text,
        cmdline_attempt(mem, text).0[CMDLINE_START + text.len()] == 0,
        same_outside(
            mem,
            cmdline_attempt(mem, text).0,
            CMDLINE_START as int,
            CMDLINE_START + text.len() + 1,
        ),
{
    lemma_le_bytes_len(0, 1);
    crate::codec::lemma_le_bytes_index(0, 1, 0);
    assert(cmdline_attempt(mem, text).0.subrange(CMDLINE_START as int, CMDLINE_START + text.len())
        =~= text);
}

/// What a load gives depends on the bytes that it covers alone.
proof fn lemma_load_of_same_bytes(a: Seq<u8>, b: Seq<u8>, from: int, to: int, gpa: u64, width: nat)
    requires
        same_outside(a, b, from, to),
        gpa + width <= from || to <= gpa,
        gpa + width <= a.len(),
    ensures
        load(b, gpa, width) == load(a, gpa, width),
{
    assert(a.subrange(gpa as int, gpa + width) =~= b.subrange(gpa as int, gpa + width));
}

/// Memory `mem` holds the boot artefacts for the command line `text` and `ram_bytes` of
/// memory: descriptor `i` and the empty interrupt table, the page table entries that map
/// `vaddr` to itself, the command line with a zero byte behind it, and the boot
/// parameters.
pub open spec fn has_boot_tables(
    mem: Seq<u8>,
    text: Seq<u8>,
    ram_bytes: u64,
    i: nat,
    vaddr: u64,
) -> bool {
    let huge_page = vaddr as int / HUGE_PAGE as int;
    &&& load(mem, (BOOT_GDT_OFFSET + 8 * i) as u64, 8) == Ok::<nat, RamError>(gdt_entry(i as int))
    &&& load(mem, BOOT_IDT_OFFSET, 8) == Ok::<nat, RamError>(0)
    &&& load(mem, PML4_START, 8) == Ok::<nat, RamError>((PDPTE_START + PAGE_TABLE_FLAGS) as nat)
    &&& load(mem, PDPTE_START, 8) == Ok::<nat, RamError>((PDE_START + PAGE_TABLE_FLAGS) as nat)
    &&& load(mem, (PDE_START + 8 * huge_page) as u64, 8) == Ok::<nat, RamError>(
        pd_entry(huge_page),
    )
    &&& mem.subrange(CMDLINE_START as int, CMDLINE_START + text.len()) == text
    &&& mem[CMDLINE_START + text.len()] == 0
    &&& has_zero_page(mem, text.len(), ram_bytes)
}

/// The boot artefacts do not get in each other's way: once all are written, all are
/// intact, whatever was in memory before.
pub proof fn law_boot_layout(mem: Seq<u8>, text: Seq<u8>, i: nat, vaddr: u64)
    requires
        is_ram_size(mem.len()),
        mem.len() <= usize::MAX,
        CMDLINE_START + text.len() + 1 <= mem.len(),
        i < 4,
        vaddr < 0x4000_0000,
    ensures
        with_boot_tables(mem, text).1 is Ok,
        with_boot_tables(mem, text).0.len() == mem.len(),
        has_boot_tables(with_boot_tables(mem, text).0, text, mem.len() as u64, i, vaddr),
{
    let m1 = with_gdt(mem);
    let m2 = with_page_tables(m1);
    let m3 = cmdline_attempt(m2, text).0;
    let m4 = with_zero_page(m3, text.len(), mem.len() as u64);
    law_gdt(mem, i);
    law_identity_map(m1, vaddr);
    law_cmdline(m2, text);
    law_zero_page(m3, text.len(), mem.len() as u64);
    let zp = ZERO_PAGE_START as int;
    let cl = CMDLINE_START as int;
    let ce = CMDLINE_START + text.len() + 1;
    let g = (BOOT_GDT_OFFSET + 8 * i) as u64;
    let pd = (PDE_START + 8 * (vaddr as int / HUGE_PAGE as int)) as u64;
    lemma_load_of_same_bytes(m1, m2, PML4_START as int, PDE_START + 0x1000, g, 8);
    lemma_load_of_same_bytes(m2, m3, cl, ce, g, 8);
    lemma_load_of_same_bytes(m3, m4, zp, zp + 0x1000, g, 8);
    lemma_load_of_same_bytes(m1, m2, PML4_START as int, PDE_START + 0x1000, BOOT_IDT_OFFSET, 8);
    lemma_load_of_same_bytes(m2, m3, cl, ce, BOOT_IDT_OFFSET, 8);
    lemma_load_of_same_bytes(m3, m4, zp, zp + 0x1000, BOOT_IDT_OFFSET, 8);
    lemma_load_of_same_bytes(m2, m3, cl, ce, PML4_START, 8);
    lemma_load_of_same_bytes(m3, m4, zp, zp + 0x1000, PML4_START, 8);
    lemma_load_of_same_bytes(m2, m3, cl, ce, PDPTE_START, 8);
    lemma_load_of_same_bytes(m3, m4, zp, zp + 0x1000, PDPTE_START, 8);
    lemma_load_of_same_bytes(m2, m3, cl, ce, pd, 8);
    lemma_load_of_same_bytes(m3, m4, zp, zp + 0x1000, pd, 8);
    assert(m4.subrange(cl, cl + text.len()) =~= m3.subrange(cl, cl + text.len()));
}

/// A kernel none of whose segments reaches below `top` leaves everything below `top`
/// as it was.
pub proof fn law_kernel_leaves_low_memory(mem: Seq<u8>, kernel: Seq<u8>, top: int)
    requires
        0 <= top <= mem.len(),
        elf_header(kernel) matches Ok(h) ==> forall|j: u16|
            j < h.e_phnum ==> ((#[trigger] segment(kernel, h, j)) matches Ok(Some(s)) ==> s.paddr
                >= top),
    ensures
        load_image(kernel, mem).0.len() == mem.len(),
        load_image(kernel, mem).0.take(top) == mem.take(top),
{
    let loaded = load_image(kernel, mem).0;
    crate::vmm::common::elf::lemma_load_image_keeps_size(kernel, mem);
    assert forall|gpa: int| 0 <= gpa < top implies loaded[gpa] == mem[gpa] by {
        crate::vmm::common::elf::law_only_segments_are_written(kernel, mem, gpa);
    }
    assert(loaded.take(top) =~= mem.take(top));
}

/// Loads below `top` do not tell apart memories that agree below `top`.
proof fn lemma_load_below(a: Seq<u8>, b: Seq<u8>, top: int, gpa: u64, width: nat)
    requires
        a.len() == b.len(),
        0 <= top <= a.len(),
        a.take(top) == b.take(top),
        gpa + width <= top,
    ensures
        load(b, gpa, width) == load(a, gpa, width),
{
    assert(b.subrange(gpa as int, gpa + width) =~= b.take(top).subrange(gpa as int, gpa + width));
    assert(a.subrange(gpa as int, gpa + width) =~= a.take(top).subrange(gpa as int, gpa + width));
}

proof fn lemma_zero_page_below(a: Seq<u8>, b: Seq<u8>, top: int, cmdline_len: nat, ram_bytes: u64)
    requires
        a.len() == b.len(),
        0 <= top <= a.len(),
        a.take(top) == b.take(top),
        ZERO_PAGE_START + 0x1000 <= top,
        has_zero_page(a, cmdline_len, ram_bytes),
    ensures
        has_zero_page(b, cmdline_len, ram_bytes),
{
    let base = ZERO_PAGE_START;
    lemma_load_below(a, b, top, (base + OFFSET_HDR_BOOT_FLAG) as u64, 2);
    lemma_load_below(a, b, top, (base + OFFSET_HDR_HEADER) as u64, 4);
    lemma_load_below(a, b, top, (base + OFFSET_HDR_VERSION) as u64, 2);
    lemma_load_below(a, b, top, (base + OFFSET_HDR_TYPE_OF_LOADER) as u64, 1);
    lemma_load_below(a, b, top, (base + OFFSET_HDR_KERNEL_ALIGNMENT) as u64, 4);
    lemma_load_below(a, b, top, (base + OFFSET_HDR_CMD_LINE_PTR) as u64, 4);
    lemma_load_below(a, b, top, (base + OFFSET_HDR_CMDLINE_SIZE) as u64, 4);
    lemma_load_below(a, b, top, (base + OFFSET_E820_ENTRIES) as u64, 1);
    lemma_load_below(a, b, top, (base + OFFSET_E820_TABLE) as u64, 8);
    lemma_load_below(a, b, top, (base + OFFSET_E820_TABLE + 8) as u64, 8);
    lemma_load_below(a, b, top, (base + OFFSET_E820_TABLE + 16) as u64, 4);
}

/// A guest that was made ready with a kernel that stays above the first mebibyte, and a
/// command line that stays below it, has all of its boot artefacts in memory.
pub proof fn law_booted_guest(mem: Seq<u8>, text: Seq<u8>, kernel: Seq<u8>, i: nat, vaddr: u64)
    requires
        is_ram_size(mem.len()),
        mem.len() <= usize::MAX,
        CMDLINE_START + text.len() + 1 <= HIMEM_START,
        elf_header(kernel) matches Ok(h) ==> forall|j: u16|
            j < h.e_phnum ==> ((#[trigger] segment(kernel, h, j)) matches Ok(Some(s)) ==> s.paddr
                >= HIMEM_START),
        i < 4,
        vaddr < 0x4000_0000,
    ensures
        has_boot_tables(
            boot_image(mem, text, kernel).0,
            text,
            mem.len() as u64,
            i,
            vaddr,
        ),
{
    let top = HIMEM_START as int;
    let (low, end) = with_boot_tables(mem, text);
    law_boot_layout(mem, text, i, vaddr);
    law_kernel_leaves_low_memory(low, kernel, top);
    let full = boot_image(mem, text, kernel).0;
    lemma_load_below(low, full, top, (BOOT_GDT_OFFSET + 8 * i) as u64, 8);
    lemma_load_below(low, full, top, BOOT_IDT_OFFSET, 8);
    lemma_load_below(low, full, top, PML4_START, 8);
    lemma_load_below(low, full, top, PDPTE_START, 8);
    lemma_load_below(
        low,
        full,
        top,
        (PDE_START + 8 * (vaddr as int / HUGE_PAGE as int)) as u64,
        8,
    );
    let from = CMDLINE_START as int;
    let to = CMDLINE_START + text.len();
    assert(full.subrange(from, to) =~= full.take(top).subrange(from, to));
    assert(low.subrange(from, to) =~= low.take(top).subrange(from, to));
    assert(full[to] == full.take(top)[to]);
    assert(low[to] == low.take(top)[to]);
    lemma_zero_page_below(low, full, top, text.len(), mem.len() as u64);
}

/// A command line can be written exactly where it and the zero byte behind it fit memory.
pub proof fn law_cmdline_fits(mem: Seq<u8>, text: Seq<u8>)
    requires
        mem.len() <= usize::MAX,
    ensures
        cmdline_attempt(mem, text).1 is Ok <==> 0x20000 + text.len() + 1 <= mem.len(),
        with_boot_tables(mem, text).1 is Ok <==> 0x20000 + text.len() + 1 <= mem.len(),
{
}

/// Making a guest ready ends as loading its kernel on top of the boot tables does, unless
/// the command line does not fit. Where it succeeds, the guest starts where the kernel says,
/// and each of the kernel's segments that no later one covers is at its address: its bytes
/// of the file, and zeros up to its memory size.
pub proof fn law_prepared_kernel(mem: Seq<u8>, text: Seq<u8>, kernel: Seq<u8>, i: u16)
    requires
        mem.len() <= usize::MAX,
        kernel.len() <= u64::MAX,
    ensures
        0x20000 + text.len() + 1 > mem.len() ==> {
            &&& with_boot_tables(mem, text).1 matches Err(e) && boot_image(mem, text, kernel).1
                == Err::<LoadedKernel, BootError>(BootError::Ram(e))
            &&& boot_image(mem, text, kernel).0 == with_boot_tables(mem, text).0
        },
        0x20000 + text.len() + 1 <= mem.len() ==> {
            let low = with_boot_tables(mem, text).0;
            &&& boot_image(mem, text, kernel).0 == load_image(kernel, low).0
            &&& load_image(kernel, low).1 matches Ok(k) ==> (boot_image(mem, text, kernel).1
                matches Ok(b) && b.entry == k.entry && b.entry == eight_bytes(kernel, 24))
            &&& load_image(kernel, low).1 matches Err(e) ==> boot_image(mem, text, kernel).1
                == Err::<LoadedKernel, BootError>(BootError::Elf(e))
        },
        ({
            let off = eight_bytes(kernel, 32) + i * two_bytes(kernel, 54);
            let h = elf_header(kernel)->Ok_0;
            let offset = eight_bytes(kernel, off + 8);
            let paddr = eight_bytes(kernel, off + 24);
            let filesz = eight_bytes(kernel, off + 32);
            let memsz = eight_bytes(kernel, off + 40);
            let full = boot_image(mem, text, kernel).0;
            boot_image(mem, text, kernel).1 is Ok && i < two_bytes(kernel, 56) && off + two_bytes(
                kernel,
                54,
            ) <= kernel.len() && four_bytes(kernel, off) == 1 && (forall|j: u16|
                i < j < two_bytes(kernel, 56) ==> ((#[trigger] segment(kernel, h, j)) matches Ok(
                    Some(other),
                ) ==> (segment(kernel, h, i) matches Ok(Some(s)) ==> s.apart(other)))) ==> {
                &&& offset + filesz <= kernel.len()
                &&& full.subrange(paddr, paddr + filesz) == kernel.subrange(
                    offset,
                    offset + filesz,
                )
                &&& forall|a: int|
                    paddr + filesz <= a < paddr + memsz ==> (#[trigger] full[a]) == 0
            }
        }),
{
    law_cmdline_fits(mem, text);
    let low = with_boot_tables(mem, text).0;
    crate::vmm::common::elf::law_header_bytes(kernel);
    let off = eight_bytes(kernel, 32) + i * two_bytes(kernel, 54);
    let h = elf_header(kernel)->Ok_0;
    if boot_image(mem, text, kernel).1 is Ok && i < two_bytes(kernel, 56) && off + two_bytes(
        kernel,
        54,
    ) <= kernel.len() && four_bytes(kernel, off) == 1 && (forall|j: u16|
        i < j < two_bytes(kernel, 56) ==> ((#[trigger] segment(kernel, h, j)) matches Ok(
            Some(other),
        ) ==> (segment(kernel, h, i) matches Ok(Some(s)) ==> s.apart(other)))) {
        crate::vmm::common::elf::law_loaded_memory(kernel, low, i);
    }
}

/// The descriptors that the processor finds: none, kernel code, kernel data and the task
/// state, all at address zero.
pub proof fn law_descriptors()
    ensures
        gdt_entry(0) == 0,
        gdt_entry(1) == 0x00af_9b00_0000_ffff,
        gdt_entry(2) == 0x00cf_9300_0000_ffff,
        gdt_entry(3) == 0x0080_8900_0000_0067,
        gdt_entry(4) == 0,
{
}

/// Entry `i` of the page directory maps huge page `i` to itself, present and writable.
pub proof fn law_page_directory(i: int)
    requires
        0 <= i < 512,
    ensures
        pd_entry(i) == i * 0x20_0000 + 0x83,
{
}

/// A guest that cannot be made ready is told of as its memory or its kernel is.
pub proof fn law_messages(path: Seq<char>, ram: RamError, elf: ElfError)
    ensures
        BootError::Ram(ram).text(path) == ram.text(),
        BootError::Elf(elf).text(path) == elf.text(path),
{
}

/// A command line that does not fit is refused with the range that it would take. Where
/// only the zero byte behind it has no room, the line itself is there; otherwise memory
/// stays as it was.
pub proof fn law_cmdline_refused(mem: Seq<u8>, text: Seq<u8>)
    requires
        mem.len() < usize::MAX,
        0x20000 + text.len() <= usize::MAX,
        0x20000 + text.len() >= mem.len(),
    ensures
        0x20000 + text.len() > mem.len() ==> cmdline_attempt(mem, text) == (
            mem,
            Err::<(), RamError>(
                RamError::OutOfBounds {
                    access: Access::Write,
                    start: 0x20000,
                    end: (0x20000 + text.len()) as usize,
                    size: mem.len() as usize,
                },
            ),
        ),
        0x20000 + text.len() == mem.len() ==> {
            let (after, end) = cmdline_attempt(mem, text);
            &&& after.len() == mem.len()
            &&& after.take(0x20000) == mem.take(0x20000)
            &&& after.skip(0x20000) == text
            &&& end == Err::<(), RamError>(
                RamError::OutOfBounds {
                    access: Access::Write,
                    start: mem.len() as usize,
                    end: (mem.len() + 1) as usize,
                    size: mem.len() as usize,
                },
            )
        },
        with_boot_tables(mem, text).1 == cmdline_attempt(mem, text).1,
        with_boot_tables(mem, text).0 == cmdline_attempt(with_page_tables(with_gdt(mem)), text).0,
{
    if 0x20000 + text.len() == mem.len() {
        let after = cmdline_attempt(mem, text).0;
        assert(after.take(0x20000) =~= mem.take(0x20000));
        assert(after.skip(0x20000) =~= text);
    }
}

} // verus!
