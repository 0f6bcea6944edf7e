use hyperpod::vmm::common::elf::{load, ElfError, LoadedKernel};
use hyperpod::vmm::common::ram::{Access, GuestRam, RamError};

struct Program {
    kind: u32,
    offset: u64,
    paddr: u64,
    filesz: u64,
    memsz: u64,
}

fn image(programs: &[Program], payload: &[u8]) -> Vec<u8> {
    let mut k = vec![0u8; 64];
    k[..6].copy_from_slice(&[0x7f, b'E', b'L', b'F', 2, 1]);
    k[18..20].copy_from_slice(&62u16.to_le_bytes());
    k[24..32].copy_from_slice(&0x10_0200u64.to_le_bytes());
    k[32..40].copy_from_slice(&64u64.to_le_bytes());
    k[54..56].copy_from_slice(&56u16.to_le_bytes());
    k[56..58].copy_from_slice(&(programs.len() as u16).to_le_bytes());
    for p in programs {
        let mut h = [0u8; 56];
        h[..4].copy_from_slice(&p.kind.to_le_bytes());
        h[8..16].copy_from_slice(&p.offset.to_le_bytes());
        h[24..32].copy_from_slice(&p.paddr.to_le_bytes());
        h[32..40].copy_from_slice(&p.filesz.to_le_bytes());
        h[40..48].copy_from_slice(&p.memsz.to_le_bytes());
        k.extend_from_slice(&h);
    }
    k.extend_from_slice(payload);
    k
}

fn load_error(bytes: &[u8]) -> ElfError {
    let mut ram = GuestRam::new(1).unwrap();
    load(bytes, &mut ram).unwrap_err()
}

#[test]
fn segments_go_to_their_addresses() {
    let payload = [1u8, 2, 3, 4, 5];
    let base = 64 + 3 * 56;
    let bytes = image(
        &[
            Program { kind: 1, offset: base, paddr: 0x1000, filesz: 3, memsz: 6 },
            Program { kind: 4, offset: 0, paddr: 0, filesz: 64, memsz: 64 },
            Program { kind: 1, offset: base + 3, paddr: 0x2000, filesz: 2, memsz: 1 },
        ],
        &payload,
    );
    let mut ram = GuestRam::new(1).unwrap();
    ram.write_slice(0x1000, &[0xff; 8]).unwrap();
    assert_eq!(load(&bytes, &mut ram), Ok(LoadedKernel { entry: 0x10_0200 }));
    let mut buf = [0u8; 8];
    ram.read_slice(0x1000, &mut buf).unwrap();
    assert_eq!(buf, [1, 2, 3, 0, 0, 0, 0xff, 0xff]);
    ram.read_slice(0x2000, &mut buf).unwrap();
    assert_eq!(buf, [4, 5, 0, 0, 0, 0, 0, 0]);
    assert_eq!(ram.read_obj::<u64>(0).unwrap(), 0);
}

#[test]
fn bad_headers_are_refused() {
    let good = image(&[Program { kind: 1, offset: 0, paddr: 0, filesz: 0, memsz: 0 }], &[]);
    assert_eq!(load_error(&good[..63]), ElfError::NotElf);
    let with = |at: usize, b: u8| {
        let mut k = good.clone();
        k[at] = b;
        load_error(&k)
    };
    assert_eq!(with(0, 0), ElfError::NotElf);
    assert_eq!(with(4, 1), ElfError::NotElf64);
    assert_eq!(with(5, 2), ElfError::NotLittleEndian);
    assert_eq!(with(18, 3), ElfError::NotX86_64 { e_machine: 3 });
    assert_eq!(with(54, 55), ElfError::HeaderSize { e_phentsize: 55 });
    assert_eq!(with(56, 2), ElfError::HeaderPastEnd { index: 1 });
    assert_eq!(with(64, 2), ElfError::NoSegments);
    let mut k = good.clone();
    k[32..40].copy_from_slice(&u64::MAX.to_le_bytes());
    k[56..58].copy_from_slice(&2u16.to_le_bytes());
    assert_eq!(load_error(&k), ElfError::HeaderPastEnd { index: 0 });
}

#[test]
fn segments_outside_the_file_are_refused() {
    let bytes = image(&[Program { kind: 1, offset: 119, paddr: 0, filesz: 2, memsz: 2 }], &[]);
    assert_eq!(load_error(&bytes), ElfError::SegmentOutOfFile { index: 0 });
    let bytes = image(&[Program { kind: 1, offset: u64::MAX, paddr: 0, filesz: 2, memsz: 2 }], &[]);
    assert_eq!(load_error(&bytes), ElfError::SegmentOutOfFile { index: 0 });
}

#[test]
fn segments_outside_memory_are_refused() {
    let bytes = image(&[Program { kind: 1, offset: 0, paddr: 0xf_ffff, filesz: 2, memsz: 2 }], &[]);
    assert_eq!(
        load_error(&bytes),
        ElfError::Ram(RamError::OutOfBounds {
            access: Access::Write,
            start: 0xf_ffff,
            end: 0x10_0001,
            size: 0x10_0000
        })
    );
    let bytes = image(&[Program { kind: 1, offset: 0, paddr: 0, filesz: 1, memsz: 0x10_0001 }], &[]);
    assert_eq!(
        load_error(&bytes),
        ElfError::Ram(RamError::OutOfBounds {
            access: Access::Write,
            start: 1,
            end: 0x10_0001,
            size: 0x10_0000
        })
    );
}

#[test]
fn elf_errors_in_words() {
    assert_eq!(ElfError::NotElf.message("k"), "k is not an ELF file");
    assert_eq!(ElfError::NotElf64.message("k"), "k is not ELF64");
    assert_eq!(ElfError::NotLittleEndian.message("k"), "k is not little-endian");
    assert_eq!(
        ElfError::NotX86_64 { e_machine: 40 }.message("k"),
        "k is not x86_64 (e_machine = 40)"
    );
    assert_eq!(
        ElfError::HeaderSize { e_phentsize: 32 }.message("k"),
        "unexpected program header size 32"
    );
    assert_eq!(ElfError::HeaderOffsetOverflow.message("k"), "program header offset overflow");
    assert_eq!(
        ElfError::HeaderPastEnd { index: 3 }.message("k"),
        "program header 3 runs past end of file"
    );
    assert_eq!(
        ElfError::SegmentOutOfFile { index: 0 }.message("k"),
        "PT_LOAD segment 0 file range out of bounds"
    );
    assert_eq!(ElfError::Ram(RamError::GpaOverflow).message("k"), "gpa overflow");
    assert_eq!(ElfError::NoSegments.message("k"), "no PT_LOAD segments in k");
}
