//! Kernel loader.

use vstd::prelude::*;

use crate::codec::{
    eight_bytes, four_bytes, law_little_endian_within, le_value, lemma_le_value_bound,
    lemma_pow256_values, read_le, two_bytes,
};
use crate::text::{append_decimal, decimal};
use crate::vmm::common::ram::{
    access_result, write_attempt, zeros, Access, GuestRam, RamError,
};

verus! {

/// Bytes in an ELF64 file header.
pub const EHDR_SIZE: usize = 64;

/// Bytes in an ELF64 program header.
pub const PHDR_SIZE: u64 = 56;

pub const ELFCLASS64: u8 = 2;

pub const ELFDATA2LSB: u8 = 1;

pub const EM_X86_64: u16 = 62;

pub const PT_LOAD: u32 = 1;

/// Where a loaded kernel starts.
#[derive(Debug, Clone, Copy, PartialEq, Eq, Structural)]
pub struct LoadedKernel {
    pub entry: u64,
}

/// Why a kernel image could not be loaded.
#[derive(Debug, Clone, Copy, PartialEq, Eq, Structural)]
pub enum ElfError {
    NotElf,
    NotElf64,
    NotLittleEndian,
    NotX86_64 { e_machine: u16 },
    HeaderSize { e_phentsize: u16 },
    HeaderOffsetOverflow,
    HeaderPastEnd { index: u16 },
    SegmentOutOfFile { index: u16 },
    /// A segment does not fit guest memory.
    Ram(RamError),
    NoSegments,
}

impl ElfError {
    /// The text that reports the error for the image at `path`.
    pub open spec fn text(self, path: Seq<char>) -> Seq<char> {
        match self {
            ElfError::NotElf => path + " is not an ELF file"@,
            ElfError::NotElf64 => path + " is not ELF64"@,
            ElfError::NotLittleEndian => path + " is not little-endian"@,
            ElfError::NotX86_64 { e_machine } => path + " is not x86_64 (e_machine = "@ + decimal(
                e_machine as nat,
            ) + ")"@,
            ElfError::HeaderSize { e_phentsize } => "unexpected program header size "@ + decimal(
                e_phentsize as nat,
            ),
            ElfError::HeaderOffsetOverflow => "program header offset overflow"@,
            ElfError::HeaderPastEnd { index } => "program header "@ + decimal(index as nat)
                + " runs past end of file"@,
            ElfError::SegmentOutOfFile { index } => "PT_LOAD segment "@ + decimal(index as nat)
                + " file range out of bounds"@,
            ElfError::Ram(e) => e.text(),
            ElfError::NoSegments => "no PT_LOAD segments in "@ + path,
        }
    }

    /// Reports the error in words, for the image at `path`.
    pub fn message(&self, path: &str) -> (s: String)
        ensures
            s@ == self.text(path@),
    {
        match *self {
            ElfError::NotElf => String::from_str(path).concat(" is not an ELF file"),
            ElfError::NotElf64 => String::from_str(path).concat(" is not ELF64"),
            ElfError::NotLittleEndian => String::from_str(path).concat(" is not little-endian"),
            ElfError::NotX86_64 { e_machine } => {
                let mut s = String::from_str(path).concat(" is not x86_64 (e_machine = ");
                append_decimal(&mut s, e_machine as u64);
                s.append(")");
                s
            },
            ElfError::HeaderSize { e_phentsize } => {
                let mut s = String::from_str("unexpected program header size ");
                append_decimal(&mut s, e_phentsize as u64);
                s
            },
            ElfError::HeaderOffsetOverflow => String::from_str("program header offset overflow"),
            ElfError::HeaderPastEnd { index } => {
                let mut s = String::from_str("program header ");
                append_decimal(&mut s, index as u64);
                s.append(" runs past end of file");
                s
            },
            ElfError::SegmentOutOfFile { index } => {
                let mut s = String::from_str("PT_LOAD segment ");
                append_decimal(&mut s, index as u64);
                s.append(" file range out of bounds");
                s
            },
            ElfError::Ram(e) => e.message(),
            ElfError::NoSegments => String::from_str("no PT_LOAD segments in ").concat(path),
        }
    }
}

/// The `n`-byte little-endian field at `at`.
pub open spec fn field(bytes: Seq<u8>, at: int, n: nat) -> nat {
    le_value(bytes.subrange(at, at + n))
}

/// What the loader reads of an ELF64 file header.
#[derive(Debug, Clone, Copy, PartialEq, Eq, Structural)]
pub struct ElfHeader {
    pub e_entry: u64,
    pub e_phoff: u64,
    pub e_phentsize: u16,
    pub e_phnum: u16,
}

/// The four bytes that every ELF file starts with: `0x7f` and `ELF`.
pub open spec fn elf_magic() -> Seq<u8> {
    seq![0x7fu8, 0x45u8, 0x4cu8, 0x46u8]
}

/// The file header of a little-endian x86_64 ELF64 image.
pub open spec fn elf_header(bytes: Seq<u8>) -> Result<ElfHeader, ElfError> {
    if bytes.len() < EHDR_SIZE || bytes.take(4) != elf_magic() {
        Err(ElfError::NotElf)
    } else if bytes[4] != ELFCLASS64 {
        Err(ElfError::NotElf64)
    } else if bytes[5] != ELFDATA2LSB {
        Err(ElfError::NotLittleEndian)
    } else if field(bytes, 18, 2) != EM_X86_64 {
        Err(ElfError::NotX86_64 { e_machine: field(bytes, 18, 2) as u16 })
    } else if field(bytes, 54, 2) < PHDR_SIZE {
        Err(ElfError::HeaderSize { e_phentsize: field(bytes, 54, 2) as u16 })
    } else {
        Ok(
            ElfHeader {
                e_entry: field(bytes, 24, 8) as u64,
                e_phoff: field(bytes, 32, 8) as u64,
                e_phentsize: field(bytes, 54, 2) as u16,
                e_phnum: field(bytes, 56, 2) as u16,
            },
        )
    }
}

/// A loadable segment: bytes of the file that go to the physical address `paddr`,
/// and how many bytes of zero follow them.
pub struct Segment {
    pub file: Seq<u8>,
    pub paddr: u64,
    pub zero_fill: nat,
}

impl Segment {
    /// Whether the segment takes up guest address `gpa`.
    pub open spec fn covers(self, gpa: int) -> bool {
        self.paddr <= gpa < self.paddr + self.file.len() + self.zero_fill
    }

    /// Whether the two segments have no guest address in common.
    pub open spec fn apart(self, other: Segment) -> bool {
        ||| self.image().len() == 0
        ||| other.image().len() == 0
        ||| self.paddr + self.image().len() <= other.paddr
        ||| other.paddr + other.image().len() <= self.paddr
    }

    /// The memory image of the segment.
    pub open spec fn image(self) -> Seq<u8> {
        self.file + zeros(self.zero_fill)
    }
}

/// The segment that program header `i` describes: `None` if it is not to be loaded.
pub open spec fn segment(bytes: Seq<u8>, h: ElfHeader, i: u16) -> Result<
    Option<Segment>,
    ElfError,
> {
    let off = h.e_phoff + i * h.e_phentsize;
    if off > u64::MAX {
        Err(ElfError::HeaderOffsetOverflow)
    } else if off + h.e_phentsize > bytes.len() {
        Err(ElfError::HeaderPastEnd { index: i })
    } else if field(bytes, off, 4) != PT_LOAD {
        Ok(None)
    } else {
        let p_offset = field(bytes, off + 8, 8);
        let p_filesz = field(bytes, off + 32, 8);
        let p_memsz = field(bytes, off + 40, 8);
        if p_offset + p_filesz > bytes.len() {
            Err(ElfError::SegmentOutOfFile { index: i })
        } else {
            Ok(
                Some(
                    Segment {
                        file: bytes.subrange(p_offset as int, (p_offset + p_filesz) as int),
                        paddr: field(bytes, off + 24, 8) as u64,
                        zero_fill: if p_memsz > p_filesz {
                            (p_memsz - p_filesz) as nat
                        } else {
                            0
                        },
                    },
                ),
            )
        }
    }
}

/// Memory after the attempt to place segment `s`, and how the attempt ended. File
/// bytes that fit stay where the zeros behind them do not.
pub open spec fn place(mem: Seq<u8>, s: Segment) -> (Seq<u8>, Result<(), ElfError>) {
    match access_result(Access::Write, mem.len(), s.paddr, s.file.len()) {
        Err(e) => (mem, Err(ElfError::Ram(e))),
        Ok(_) => {
            let filled = write_attempt(mem, s.paddr, s.file);
            let end = (s.paddr + s.file.len()) as u64;
            if s.zero_fill == 0 {
                (filled, Ok(()))
            } else {
                match access_result(Access::Write, mem.len(), end, s.zero_fill) {
                    Err(e) => (filled, Err(ElfError::Ram(e))),
                    Ok(_) => (write_attempt(filled, end, zeros(s.zero_fill)), Ok(())),
                }
            }
        },
    }
}

/// Memory after the program headers from `i` on have been gone through, and how that
/// ended. The first header that fails ends it; `any` says whether an earlier header
/// has loaded something.
pub open spec fn load_from(bytes: Seq<u8>, h: ElfHeader, i: nat, mem: Seq<u8>, any: bool) -> (
    Seq<u8>,
    Result<(), ElfError>,
)
    decreases h.e_phnum - i,
{
    if i >= h.e_phnum {
        (
            mem,
            if any {
                Ok(())
            } else {
                Err(ElfError::NoSegments)
            },
        )
    } else {
        match segment(bytes, h, i as u16) {
            Err(e) => (mem, Err(e)),
            Ok(None) => load_from(bytes, h, i + 1, mem, any),
            Ok(Some(s)) => {
                let (placed, end) = place(mem, s);
                match end {
                    Err(e) => (placed, Err(e)),
                    Ok(_) => load_from(bytes, h, i + 1, placed, true),
                }
            },
        }
    }
}

/// Memory after the attempt to load the image `bytes`, and how the attempt ended.
pub open spec fn load_image(bytes: Seq<u8>, mem: Seq<u8>) -> (
    Seq<u8>,
    Result<LoadedKernel, ElfError>,
) {
    match elf_header(bytes) {
        Err(e) => (mem, Err(e)),
        Ok(h) => {
            let (loaded, end) = load_from(bytes, h, 0, mem, false);
            match end {
                Err(e) => (loaded, Err(e)),
                Ok(_) => (loaded, Ok(LoadedKernel { entry: h.e_entry })),
            }
        },
    }
}

fn read_field(bytes: &[u8], at: usize, n: usize) -> (v: u64)
    requires
        n <= 8,
        at + n <= bytes@.len(),
    ensures
        v == field(bytes@, at as int, n as nat),
        n == 2 ==> v <= u16::MAX,
        n == 4 ==> v <= u32::MAX,
{
    proof {
        lemma_pow256_values();
    }
    read_le(bytes, at, n)
}

fn read_header(bytes: &[u8]) -> (r: Result<ElfHeader, ElfError>)
    ensures
        r == elf_header(bytes@),
{
    if bytes.len() < EHDR_SIZE {
        return Err(ElfError::NotElf);
    }
    if bytes[0] != 0x7f || bytes[1] != 0x45 || bytes[2] != 0x4c || bytes[3] != 0x46 {
        proof {
            let head = bytes@.take(4);
            assert(head[0] == bytes@[0] && head[1] == bytes@[1] && head[2] == bytes@[2] && head[3]
                == bytes@[3]);
        }
        return Err(ElfError::NotElf);
    }
    assert(bytes@.take(4) =~= elf_magic());
    if bytes[4] != ELFCLASS64 {
        return Err(ElfError::NotElf64);
    }
    if bytes[5] != ELFDATA2LSB {
        return Err(ElfError::NotLittleEndian);
    }
    let e_machine: u16 = read_field(bytes, 18, 2) as u16;
    if e_machine != EM_X86_64 {
        return Err(ElfError::NotX86_64 { e_machine });
    }
    let e_entry: u64 = read_field(bytes, 24, 8);
    let e_phoff: u64 = read_field(bytes, 32, 8);
    let e_phentsize: u16 = read_field(bytes, 54, 2) as u16;
    let e_phnum: u16 = read_field(bytes, 56, 2) as u16;
    if (e_phentsize as u64) < PHDR_SIZE {
        return Err(ElfError::HeaderSize { e_phentsize });
    }
    Ok(ElfHeader { e_entry, e_phoff, e_phentsize, e_phnum })
}

/// Where program header `i` starts in the file, once it is known to lie inside.
fn header_offset(bytes: &[u8], h: &ElfHeader, i: u16) -> (r: Result<usize, ElfError>)
    requires
        h.e_phentsize >= PHDR_SIZE,
    ensures
        match r {
            Ok(off) => off == h.e_phoff + i * h.e_phentsize && off + h.e_phentsize
                <= bytes@.len(),
            Err(e) => segment(bytes@, *h, i) == Err::<Option<Segment>, ElfError>(e) && (e
                is HeaderOffsetOverflow || e is HeaderPastEnd),
        },
{
    let entsize: u16 = h.e_phentsize;
    assert(i * entsize <= 0xffff * 0xffff) by (nonlinear_arith)
        requires
            i <= 0xffff,
            entsize <= 0xffff,
    ;
    let skip: u64 = i as u64 * h.e_phentsize as u64;
    if skip > u64::MAX - h.e_phoff {
        return Err(ElfError::HeaderOffsetOverflow);
    }
    let off: u64 = h.e_phoff + skip;
    let len: u64 = bytes.len() as u64;
    if h.e_phentsize as u64 > len || off > len - h.e_phentsize as u64 {
        return Err(ElfError::HeaderPastEnd { index: i });
    }
    Ok(off as usize)
}

/// Loads the segment that program header `i` describes. The result says whether
/// there was one to load.
fn load_segment(bytes: &[u8], h: &ElfHeader, i: u16, ram: &mut GuestRam) -> (r: Result<
    bool,
    ElfError,
>)
    requires
        h.e_phentsize >= PHDR_SIZE,
    ensures
        match segment(bytes@, *h, i) {
            Err(e) => r == Err::<bool, ElfError>(e) && final(ram)@ == old(ram)@,
            Ok(None) => r == Ok::<bool, ElfError>(false) && final(ram)@ == old(ram)@,
            Ok(Some(s)) => {
                &&& final(ram)@ == place(old(ram)@, s).0
                &&& match place(old(ram)@, s).1 {
                    Err(e) => r == Err::<bool, ElfError>(e),
                    Ok(_) => r == Ok::<bool, ElfError>(true),
                }
            },
        },
{
    let off: usize = match header_offset(bytes, h, i) {
        Ok(off) => off,
        Err(e) => return Err(e),
    };
    let len: u64 = bytes.len() as u64;
    let p_type: u32 = read_field(bytes, off, 4) as u32;
    if p_type != PT_LOAD {
        return Ok(false);
    }
    let p_offset: u64 = read_field(bytes, off + 8, 8);
    let p_paddr: u64 = read_field(bytes, off + 24, 8);
    let p_filesz: u64 = read_field(bytes, off + 32, 8);
    let p_memsz: u64 = read_field(bytes, off + 40, 8);
    if p_offset > len || p_filesz > len - p_offset {
        return Err(ElfError::SegmentOutOfFile { index: i });
    }
    let from: usize = p_offset as usize;
    let to: usize = from + p_filesz as usize;
    match ram.write_slice(p_paddr, vstd::slice::slice_subrange(bytes, from, to)) {
        Ok(_) => {},
        Err(e) => return Err(ElfError::Ram(e)),
    }
    if p_memsz > p_filesz {
        match ram.write_zeros(p_paddr + p_filesz, p_memsz - p_filesz) {
            Ok(_) => {},
            Err(e) => return Err(ElfError::Ram(e)),
        }
    }
    Ok(true)
}

/// Minimal ELF64 little-endian loader sufficient for an uncompressed `vmlinux`. Walks
/// the loadable segments of the image `bytes`, copies each into guest memory at its
/// physical address and clears what the image leaves out of it. Returns the kernel's
/// entry point.
pub fn load(bytes: &[u8], ram: &mut GuestRam) -> (r: Result<LoadedKernel, ElfError>)
    ensures
        r == load_image(bytes@, old(ram)@).1,
        final(ram)@ == load_image(bytes@, old(ram)@).0,
{
    let h = match read_header(bytes) {
        Ok(h) => h,
        Err(e) => return Err(e),
    };
    let ghost mem = ram@;
    proof {
        lemma_le_value_bound(bytes@.subrange(54, 56));
        lemma_pow256_values();
    }
    let mut loaded_any = false;
    let mut i: u16 = 0;
    while i < h.e_phnum
        invariant
            i <= h.e_phnum,
            h.e_phentsize >= PHDR_SIZE,
            mem == old(ram)@,
            elf_header(bytes@) == Ok::<ElfHeader, ElfError>(h),
            load_from(bytes@, h, 0, mem, false) == load_from(
                bytes@,
                h,
                i as nat,
                ram@,
                loaded_any,
            ),
        decreases h.e_phnum - i,
    {
        match load_segment(bytes, &h, i, ram) {
            Ok(loaded) => {
                if loaded {
                    loaded_any = true;
                }
            },
            Err(e) => return Err(e),
        }
        i = i + 1;
    }
    if !loaded_any {
        return Err(ElfError::NoSegments);
    }
    Ok(LoadedKernel { entry: h.e_entry })
}

proof fn lemma_place_is_local(mem: Seq<u8>, s: Segment, gpa: int)
    requires
        0 <= gpa < mem.len(),
        !s.covers(gpa),
    ensures
        place(mem, s).0.len() == mem.len(),
        place(mem, s).0[gpa] == mem[gpa],
{
}

proof fn lemma_untouched(
    bytes: Seq<u8>,
    h: ElfHeader,
    i: nat,
    mem: Seq<u8>,
    any: bool,
    gpa: int,
)
    requires
        0 <= gpa < mem.len(),
        forall|j: u16|
            i <= j < h.e_phnum ==> ((#[trigger] segment(bytes, h, j)) matches Ok(Some(s))
                ==> !s.covers(gpa)),
    ensures
        load_from(bytes, h, i, mem, any).0.len() == mem.len(),
        load_from(bytes, h, i, mem, any).0[gpa] == mem[gpa],
    decreases h.e_phnum - i,
{
    if i < h.e_phnum {
        match segment(bytes, h, i as u16) {
            Err(_) => {},
            Ok(None) => {
                lemma_untouched(bytes, h, i + 1, mem, any, gpa);
            },
            Ok(Some(s)) => {
                lemma_place_is_local(mem, s, gpa);
                let (placed, end) = place(mem, s);
                if end is Ok {
                    lemma_untouched(bytes, h, i + 1, placed, true, gpa);
                }
            },
        }
    }
}

/// Loading leaves every byte of memory alone that no segment covers, however it ends.
pub proof fn law_only_segments_are_written(bytes: Seq<u8>, mem: Seq<u8>, gpa: int)
    requires
        0 <= gpa < mem.len(),
        elf_header(bytes) matches Ok(h) ==> forall|j: u16|
            j < h.e_phnum ==> ((#[trigger] segment(bytes, h, j)) matches Ok(Some(s)) ==> !s.covers(
                gpa,
            )),
    ensures
        load_image(bytes, mem).0.len() == mem.len(),
        load_image(bytes, mem).0[gpa] == mem[gpa],
{
    if let Ok(h) = elf_header(bytes) {
        lemma_untouched(bytes, h, 0, mem, false, gpa);
    }
}

proof fn lemma_placed(mem: Seq<u8>, s: Segment)
    requires
        place(mem, s).1 is Ok,
    ensures
        s.paddr + s.image().len() <= mem.len(),
        place(mem, s).0.len() == mem.len(),
        place(mem, s).0.subrange(s.paddr as int, s.paddr + s.image().len()) == s.image(),
{
    assert(place(mem, s).0.subrange(s.paddr as int, s.paddr + s.image().len()) =~= s.image());
}

proof fn lemma_loaded(
    bytes: Seq<u8>,
    h: ElfHeader,
    i: nat,
    mem: Seq<u8>,
    any: bool,
    k: u16,
    s: Segment,
)
    requires
        i <= k < h.e_phnum,
        load_from(bytes, h, i, mem, any).1 is Ok,
        segment(bytes, h, k) == Ok::<Option<Segment>, ElfError>(Some(s)),
        forall|j: u16|
            k < j < h.e_phnum ==> ((#[trigger] segment(bytes, h, j)) matches Ok(Some(other))
                ==> s.apart(other)),
    ensures
        s.paddr + s.image().len() <= mem.len(),
        load_from(bytes, h, i, mem, any).0.subrange(s.paddr as int, s.paddr + s.image().len())
            == s.image(),
    decreases h.e_phnum - i,
{
    match segment(bytes, h, i as u16) {
        Err(_) => {},
        Ok(None) => {
            lemma_loaded(bytes, h, i + 1, mem, any, k, s);
        },
        Ok(Some(first)) => {
            let placed = place(mem, first).0;
            lemma_placed(mem, first);
            if i < k {
                lemma_loaded(bytes, h, i + 1, placed, true, k, s);
            } else {
                let done = load_from(bytes, h, i + 1, placed, true).0;
                let image = s.image();
                lemma_load_keeps_size(bytes, h, i + 1, placed, true);
                assert forall|n: int| 0 <= n < image.len() implies done[s.paddr + n]
                    == image[n] by {
                    lemma_untouched(bytes, h, i + 1, placed, true, s.paddr + n);
                    assert(placed[s.paddr + n] == placed.subrange(
                        s.paddr as int,
                        s.paddr + image.len(),
                    )[n]);
                }
                assert(done.subrange(s.paddr as int, s.paddr + image.len()) =~= image);
            }
        },
    }
}

/// When loading has succeeded, memory holds each segment's image, its file bytes and
/// the zeros behind them, at the segment's physical address, unless a later segment
/// covers part of it.
pub proof fn law_segments_are_loaded(
    bytes: Seq<u8>,
    mem: Seq<u8>,
    h: ElfHeader,
    k: u16,
    s: Segment,
)
    requires
        load_image(bytes, mem).1 is Ok,
        elf_header(bytes) == Ok::<ElfHeader, ElfError>(h),
        k < h.e_phnum,
        segment(bytes, h, k) == Ok::<Option<Segment>, ElfError>(Some(s)),
        forall|j: u16|
            k < j < h.e_phnum ==> ((#[trigger] segment(bytes, h, j)) matches Ok(Some(other))
                ==> s.apart(other)),
    ensures
        s.paddr + s.image().len() <= mem.len(),
        load_image(bytes, mem).0.subrange(s.paddr as int, s.paddr + s.image().len()) == s.image(),
{
    lemma_loaded(bytes, h, 0, mem, false, k, s);
}

proof fn lemma_load_keeps_size(bytes: Seq<u8>, h: ElfHeader, i: nat, mem: Seq<u8>, any: bool)
    ensures
        load_from(bytes, h, i, mem, any).0.len() == mem.len(),
    decreases h.e_phnum - i,
{
    if i < h.e_phnum {
        match segment(bytes, h, i as u16) {
            Err(_) => {},
            Ok(None) => {
                lemma_load_keeps_size(bytes, h, i + 1, mem, any);
            },
            Ok(Some(s)) => {
                let (placed, end) = place(mem, s);
                if end is Ok {
                    lemma_load_keeps_size(bytes, h, i + 1, placed, true);
                }
            },
        }
    }
}

/// Loading never changes the size of memory.
pub proof fn lemma_load_image_keeps_size(bytes: Seq<u8>, mem: Seq<u8>)
    ensures
        load_image(bytes, mem).0.len() == mem.len(),
{
    if let Ok(h) = elf_header(bytes) {
        lemma_load_keeps_size(bytes, h, 0, mem, false);
    }
}

/// A file has a header that can be loaded from exactly where it is long enough, starts with
/// `0x7f` and `ELF`, is of the 64-bit class and little-endian, is for x86_64 and has program
/// headers of at least 56 bytes. The header's fields are then the numbers in their places.
pub proof fn law_header_bytes(bytes: Seq<u8>)
    ensures
        elf_header(bytes) is Ok <==> {
            &&& bytes.len() >= 64
            &&& bytes[0] == 0x7f && bytes[1] == 0x45 && bytes[2] == 0x4c && bytes[3] == 0x46
            &&& bytes[4] == 2
            &&& bytes[5] == 1
            &&& two_bytes(bytes, 18) == 62
            &&& two_bytes(bytes, 54) >= 56
        },
        elf_header(bytes) matches Ok(h) ==> {
            &&& h.e_entry == eight_bytes(bytes, 24)
            &&& h.e_phoff == eight_bytes(bytes, 32)
            &&& h.e_phentsize == two_bytes(bytes, 54)
            &&& h.e_phnum == two_bytes(bytes, 56)
        },
{
    if bytes.len() >= 64 {
        law_little_endian_within(bytes, 18);
        law_little_endian_within(bytes, 24);
        law_little_endian_within(bytes, 32);
        law_little_endian_within(bytes, 54);
        law_little_endian_within(bytes, 56);
        let m = bytes.take(4);
        if bytes[0] == 0x7f && bytes[1] == 0x45 && bytes[2] == 0x4c && bytes[3] == 0x46 {
            assert(m =~= elf_magic());
        } else if m == elf_magic() {
            assert(m[0] == 0x7f && m[1] == 0x45 && m[2] == 0x4c && m[3] == 0x46);
        }
    }
}

/// A program header in the file is the numbers in their places: it asks for a segment where
/// its type is one, and the segment is then the file's bytes from its offset on, as many as
/// its file size says, for its physical address, with zeros up to its memory size.
pub proof fn law_program_header_bytes(bytes: Seq<u8>, h: ElfHeader, i: u16)
    requires
        bytes.len() <= u64::MAX,
        h.e_phentsize >= 56,
        h.e_phoff + i * h.e_phentsize + h.e_phentsize <= bytes.len(),
    ensures
        ({
            let off = h.e_phoff + i * h.e_phentsize;
            let offset = eight_bytes(bytes, off + 8);
            let paddr = eight_bytes(bytes, off + 24);
            let filesz = eight_bytes(bytes, off + 32);
            let memsz = eight_bytes(bytes, off + 40);
            &&& four_bytes(bytes, off) != 1 ==> segment(bytes, h, i) == Ok::<
                Option<Segment>,
                ElfError,
            >(None)
            &&& four_bytes(bytes, off) == 1 && offset + filesz > bytes.len() ==> segment(
                bytes,
                h,
                i,
            ) == Err::<Option<Segment>, ElfError>(ElfError::SegmentOutOfFile { index: i })
            &&& four_bytes(bytes, off) == 1 && offset + filesz <= bytes.len() ==> {
                &&& segment(bytes, h, i) matches Ok(Some(s))
                &&& s.paddr == paddr
                &&& s.image().len() == if memsz > filesz {
                    memsz
                } else {
                    filesz
                }
                &&& s.image().take(filesz) == bytes.subrange(offset, offset + filesz)
                &&& forall|j: int|
                    filesz <= j < s.image().len() ==> (#[trigger] s.image()[j]) == 0
            }
        }),
{
    let off = h.e_phoff + i * h.e_phentsize;
    assert(off >= 0) by (nonlinear_arith)
        requires
            off == h.e_phoff + i * h.e_phentsize,
    ;
    law_little_endian_within(bytes, off);
    law_little_endian_within(bytes, off + 8);
    law_little_endian_within(bytes, off + 24);
    law_little_endian_within(bytes, off + 32);
    law_little_endian_within(bytes, off + 40);
    if let Ok(Some(s)) = segment(bytes, h, i) {
        let filesz = eight_bytes(bytes, off + 32);
        let offset = eight_bytes(bytes, off + 8);
        assert(s.image().take(filesz) =~= bytes.subrange(offset, offset + filesz));
    }
}

/// A program header that runs past the end of the file cannot be read.
pub proof fn law_program_header_past_end(bytes: Seq<u8>, h: ElfHeader, i: u16)
    requires
        h.e_phoff + i * h.e_phentsize <= u64::MAX,
        h.e_phoff + i * h.e_phentsize + h.e_phentsize > bytes.len(),
    ensures
        segment(bytes, h, i) == Err::<Option<Segment>, ElfError>(
            ElfError::HeaderPastEnd { index: i },
        ),
{
}

/// After a load that succeeded, memory holds what each loadable program header asks for, at
/// the address that the header spells: its bytes of the file, and zeros up to its memory
/// size. What a later segment covers is left out. The entry point is the one that the file
/// header spells.
pub proof fn law_loaded_memory(bytes: Seq<u8>, mem: Seq<u8>, i: u16)
    requires
        bytes.len() <= u64::MAX,
        load_image(bytes, mem).1 is Ok,
        i < two_bytes(bytes, 56),
        ({
            let off = eight_bytes(bytes, 32) + i * two_bytes(bytes, 54);
            let h = elf_header(bytes)->Ok_0;
            &&& off + two_bytes(bytes, 54) <= bytes.len()
            &&& four_bytes(bytes, off) == 1
            &&& forall|j: u16|
                i < j < two_bytes(bytes, 56) ==> ((#[trigger] segment(bytes, h, j)) matches Ok(
                    Some(other),
                ) ==> (segment(bytes, h, i) matches Ok(Some(s)) ==> s.apart(other)))
        }),
    ensures
        ({
            let off = eight_bytes(bytes, 32) + i * two_bytes(bytes, 54);
            let offset = eight_bytes(bytes, off + 8);
            let paddr = eight_bytes(bytes, off + 24);
            let filesz = eight_bytes(bytes, off + 32);
            let memsz = eight_bytes(bytes, off + 40);
            let (loaded, end) = load_image(bytes, mem);
            &&& loaded.len() == mem.len()
            &&& offset + filesz <= bytes.len()
            &&& paddr + filesz <= mem.len()
            &&& loaded.subrange(paddr, paddr + filesz) == bytes.subrange(offset, offset + filesz)
            &&& memsz > filesz ==> paddr + memsz <= mem.len()
            &&& forall|a: int|
                paddr + filesz <= a < paddr + memsz ==> (#[trigger] loaded[a]) == 0
            &&& end matches Ok(k) && k.entry == eight_bytes(bytes, 24)
        }),
{
    law_header_bytes(bytes);
    let h = elf_header(bytes)->Ok_0;
    law_program_header_bytes(bytes, h, i);
    lemma_load_image_keeps_size(bytes, mem);
    let off = eight_bytes(bytes, 32) + i * two_bytes(bytes, 54);
    let offset = eight_bytes(bytes, off + 8);
    let paddr = eight_bytes(bytes, off + 24);
    let filesz = eight_bytes(bytes, off + 32);
    let memsz = eight_bytes(bytes, off + 40);
    let loaded = load_image(bytes, mem).0;
    lemma_headers_hold(bytes, h, 0, mem, false, i);
    let s = segment(bytes, h, i)->Ok_0->Some_0;
    law_segments_are_loaded(bytes, mem, h, i, s);
    let placed = loaded.subrange(s.paddr as int, s.paddr + s.image().len());
    assert(loaded.subrange(paddr, paddr + filesz) =~= placed.take(filesz));
    assert forall|a: int| paddr + filesz <= a < paddr + memsz implies (#[trigger] loaded[a])
        == 0 by {
        assert(placed[a - paddr] == s.image()[a - paddr]);
    }
}

/// A load that succeeds has found no fault with any program header.
proof fn lemma_headers_hold(
    bytes: Seq<u8>,
    h: ElfHeader,
    i: nat,
    mem: Seq<u8>,
    any: bool,
    k: u16,
)
    requires
        i <= k < h.e_phnum,
        load_from(bytes, h, i, mem, any).1 is Ok,
    ensures
        segment(bytes, h, k) is Ok,
    decreases h.e_phnum - i,
{
    if i < k {
        match segment(bytes, h, i as u16) {
            Err(_) => {},
            Ok(None) => {
                lemma_headers_hold(bytes, h, i + 1, mem, any, k);
            },
            Ok(Some(s)) => {
                let (placed, end) = place(mem, s);
                lemma_headers_hold(bytes, h, i + 1, placed, true, k);
            },
        }
    }
}

proof fn lemma_placing_fits(mem: Seq<u8>, s: Segment)
    requires
        mem.len() <= usize::MAX,
        s.paddr + s.file.len() + s.zero_fill <= mem.len(),
    ensures
        place(mem, s).1 is Ok,
        place(mem, s).0.len() == mem.len(),
{
}

proof fn lemma_load_succeeds(bytes: Seq<u8>, h: ElfHeader, i: nat, mem: Seq<u8>, any: bool)
    requires
        mem.len() <= usize::MAX,
        forall|j: u16|
            i <= j < h.e_phnum ==> ((#[trigger] segment(bytes, h, j)) matches Ok(o) && (o matches Some(
                s,
            ) ==> s.paddr + s.file.len() + s.zero_fill <= mem.len())),
    ensures
        load_from(bytes, h, i, mem, any).1 == if any || exists|j: u16|
            i <= j < h.e_phnum && (#[trigger] segment(bytes, h, j)) matches Ok(Some(_)) {
            Ok::<(), ElfError>(())
        } else {
            Err(ElfError::NoSegments)
        },
    decreases h.e_phnum - i,
{
    if i < h.e_phnum {
        let k = i as u16;
        assert(segment(bytes, h, k) is Ok);
        match segment(bytes, h, k)->Ok_0 {
            None => {
                lemma_load_succeeds(bytes, h, i + 1, mem, any);
                if exists|j: u16|
                    i <= j < h.e_phnum && (#[trigger] segment(bytes, h, j)) matches Ok(Some(_)) {
                    let j = choose|j: u16|
                        i <= j < h.e_phnum && (#[trigger] segment(bytes, h, j)) matches Ok(Some(_));
                    assert(j != k);
                }
            },
            Some(s) => {
                lemma_placing_fits(mem, s);
                lemma_load_succeeds(bytes, h, i + 1, place(mem, s).0, true);
            },
        }
    }
}

/// A file whose header and program headers are in order and whose segments all fit memory
/// loads, if it has a segment at all; the only fault of one that has none is that.
pub proof fn law_good_images_load(bytes: Seq<u8>, mem: Seq<u8>, h: ElfHeader)
    requires
        mem.len() <= usize::MAX,
        elf_header(bytes) == Ok::<ElfHeader, ElfError>(h),
        forall|j: u16|
            j < h.e_phnum ==> ((#[trigger] segment(bytes, h, j)) matches Ok(o) && (o matches Some(s)
                ==> s.paddr + s.file.len() + s.zero_fill <= mem.len())),
    ensures
        (exists|j: u16| j < h.e_phnum && (#[trigger] segment(bytes, h, j)) matches Ok(Some(_)))
            ==> (load_image(bytes, mem).1 matches Ok(k) && k.entry == h.e_entry),
        !(exists|j: u16| j < h.e_phnum && (#[trigger] segment(bytes, h, j)) matches Ok(Some(_)))
            ==> load_image(bytes, mem).1 == Err::<LoadedKernel, ElfError>(ElfError::NoSegments),
{
    lemma_load_succeeds(bytes, h, 0, mem, false);
    assert forall|j: u16|
        j < h.e_phnum && (#[trigger] segment(bytes, h, j)) matches Ok(Some(_)) implies exists|j: u16|
        0nat <= j < h.e_phnum && (#[trigger] segment(bytes, h, j)) matches Ok(Some(_)) by {}
}

/// A segment that reaches past the end of memory keeps the image from loading.
pub proof fn law_segments_must_fit(bytes: Seq<u8>, mem: Seq<u8>, h: ElfHeader, k: u16)
    requires
        mem.len() <= usize::MAX,
        elf_header(bytes) == Ok::<ElfHeader, ElfError>(h),
        k < h.e_phnum,
        segment(bytes, h, k) matches Ok(Some(s)) && s.paddr + s.file.len() + s.zero_fill
            > mem.len(),
    ensures
        load_image(bytes, mem).1 is Err,
{
    if load_image(bytes, mem).1 is Ok {
        lemma_all_fit(bytes, h, 0, mem, false, k);
    }
}

proof fn lemma_all_fit(bytes: Seq<u8>, h: ElfHeader, i: nat, mem: Seq<u8>, any: bool, k: u16)
    requires
        mem.len() <= usize::MAX,
        i <= k < h.e_phnum,
        load_from(bytes, h, i, mem, any).1 is Ok,
    ensures
        segment(bytes, h, k) matches Ok(Some(s)) ==> s.paddr + s.file.len() + s.zero_fill
            <= mem.len(),
    decreases h.e_phnum - i,
{
    match segment(bytes, h, i as u16) {
        Err(_) => {},
        Ok(None) => {
            if i < k {
                lemma_all_fit(bytes, h, i + 1, mem, any, k);
            }
        },
        Ok(Some(s)) => {
            if i < k {
                lemma_placed(mem, s);
                lemma_all_fit(bytes, h, i + 1, place(mem, s).0, true, k);
            }
        },
    }
}

/// What is wrong with a file header is told by the first fault that it has.
pub proof fn law_header_faults(bytes: Seq<u8>)
    ensures
        elf_header(bytes) matches Err(ElfError::NotElf) <==> bytes.len() < 64 || !(bytes[0] == 0x7f
            && bytes[1] == 0x45 && bytes[2] == 0x4c && bytes[3] == 0x46),
        elf_header(bytes) matches Err(ElfError::NotElf64) ==> bytes[4] != 2,
        elf_header(bytes) matches Err(ElfError::NotLittleEndian) ==> bytes[4] == 2 && bytes[5] != 1,
        elf_header(bytes) matches Err(ElfError::NotX86_64 { e_machine }) ==> bytes[4] == 2
            && bytes[5] == 1 && e_machine == two_bytes(bytes, 18) && e_machine != 62,
        elf_header(bytes) matches Err(ElfError::HeaderSize { e_phentsize }) ==> bytes[4] == 2
            && bytes[5] == 1 && two_bytes(bytes, 18) == 62 && e_phentsize == two_bytes(bytes, 54)
            && e_phentsize < 56,
        elf_header(bytes) matches Err(e) ==> e is NotElf || e is NotElf64 || e is NotLittleEndian
            || e is NotX86_64 || e is HeaderSize,
{
    if bytes.len() >= 64 {
        law_little_endian_within(bytes, 18);
        law_little_endian_within(bytes, 54);
        let m = bytes.take(4);
        if bytes[0] == 0x7f && bytes[1] == 0x45 && bytes[2] == 0x4c && bytes[3] == 0x46 {
            assert(m =~= elf_magic());
        } else if m == elf_magic() {
            assert(m[0] == 0x7f && m[1] == 0x45 && m[2] == 0x4c && m[3] == 0x46);
        }
    }
}

/// A message about an image tells its path, or the number that is wrong, in decimal.
pub proof fn law_messages(path: Seq<char>, n: u16, e: RamError)
    ensures
        ElfError::NotElf.text(path) == path + " is not an ELF file"@,
        ElfError::NotElf64.text(path) == path + " is not ELF64"@,
        ElfError::NotLittleEndian.text(path) == path + " is not little-endian"@,
        (ElfError::NotX86_64 { e_machine: n }).text(path) == path + " is not x86_64 (e_machine = "@
            + decimal(n as nat) + ")"@,
        (ElfError::HeaderSize { e_phentsize: n }).text(path) == "unexpected program header size "@
            + decimal(n as nat),
        (ElfError::HeaderPastEnd { index: n }).text(path) == "program header "@ + decimal(n as nat)
            + " runs past end of file"@,
        (ElfError::SegmentOutOfFile { index: n }).text(path) == "PT_LOAD segment "@ + decimal(
            n as nat,
        ) + " file range out of bounds"@,
        ElfError::Ram(e).text(path) == e.text(),
        ElfError::NoSegments.text(path) == "no PT_LOAD segments in "@ + path,
{
}

} // verus!
