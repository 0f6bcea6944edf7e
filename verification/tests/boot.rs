use hyperpod::vmm::common::boot::{
    prepare_guest, setup_page_tables, write_cmdline, write_gdt, write_zero_page, BootError,
    BOOT_GDT_OFFSET, BOOT_IDT_OFFSET, CMDLINE_START, PDE_START, PDPTE_START, PML4_START,
    ZERO_PAGE_START,
};
use hyperpod::vmm::common::elf::ElfError;
use hyperpod::vmm::common::ram::{Access, GuestRam, RamError};

fn word(ram: &GuestRam, at: u64) -> u64 {
    ram.read_obj::<u64>(at).unwrap()
}

#[test]
fn gdt_has_four_descriptors() {
    let mut ram = GuestRam::new(1).unwrap();
    ram.write_slice(0, &[0xff; 0x600]).unwrap();
    write_gdt(&mut ram).unwrap();
    assert_eq!(word(&ram, BOOT_GDT_OFFSET), 0);
    assert_eq!(word(&ram, BOOT_GDT_OFFSET + 8), 0x00af_9b00_0000_ffff);
    assert_eq!(word(&ram, BOOT_GDT_OFFSET + 16), 0x00cf_9300_0000_ffff);
    assert_eq!(word(&ram, BOOT_GDT_OFFSET + 24), 0x0080_8900_0000_0067);
    assert_eq!(word(&ram, BOOT_IDT_OFFSET), 0);
    assert_eq!(word(&ram, BOOT_IDT_OFFSET + 8), u64::MAX);
    assert_eq!(word(&ram, BOOT_GDT_OFFSET - 8), u64::MAX);
}

#[test]
fn page_tables_map_the_first_gibibyte_to_itself() {
    let mut ram = GuestRam::new(1).unwrap();
    setup_page_tables(&mut ram).unwrap();
    assert_eq!(word(&ram, PML4_START), PDPTE_START | 0x3);
    assert_eq!(word(&ram, PDPTE_START), PDE_START | 0x3);
    for i in 0..512u64 {
        assert_eq!(word(&ram, PDE_START + 8 * i), (i << 21) | 0x83);
    }
    assert_eq!(word(&ram, PDE_START + 8 * 512), 0);
}

#[test]
fn command_line_ends_with_a_zero_byte() {
    let mut ram = GuestRam::new(1).unwrap();
    ram.write_slice(CMDLINE_START, &[0xff; 32]).unwrap();
    write_cmdline(&mut ram, "root=\u{e9}").unwrap();
    let mut buf = [0u8; 9];
    ram.read_slice(CMDLINE_START, &mut buf).unwrap();
    assert_eq!(&buf, b"root=\xc3\xa9\0\xff");
}

#[test]
fn command_line_that_does_not_fit_is_refused() {
    let mut ram = GuestRam::new(1).unwrap();
    let room = ram.size() - CMDLINE_START as usize;
    assert!(write_cmdline(&mut ram, &"x".repeat(room - 1)).is_ok());
    assert_eq!(
        write_cmdline(&mut ram, &"x".repeat(room)),
        Err(RamError::OutOfBounds { access: Access::Write, start: 0x10_0000, end: 0x10_0001, size: 0x10_0000 })
    );
    assert_eq!(
        write_cmdline(&mut ram, &"x".repeat(room + 1)),
        Err(RamError::OutOfBounds { access: Access::Write, start: 0x2_0000, end: 0x10_0001, size: 0x10_0000 })
    );
}

#[test]
fn zero_page_holds_the_boot_parameters() {
    let mut ram = GuestRam::new(1).unwrap();
    write_zero_page(&mut ram, 17, 128 << 20).unwrap();
    let at = |off: u64| ZERO_PAGE_START + off;
    assert_eq!(ram.read_obj::<u16>(at(0x1fe)).unwrap(), 0xaa55);
    assert_eq!(ram.read_obj::<u32>(at(0x202)).unwrap(), 0x5372_6448);
    assert_eq!(ram.read_obj::<u16>(at(0x206)).unwrap(), 0x020c);
    assert_eq!(ram.read_obj::<u8>(at(0x210)).unwrap(), 0xff);
    assert_eq!(ram.read_obj::<u32>(at(0x228)).unwrap(), 0x20000);
    assert_eq!(ram.read_obj::<u32>(at(0x230)).unwrap(), 0x0100_0000);
    assert_eq!(ram.read_obj::<u32>(at(0x238)).unwrap(), 17);
    assert_eq!(ram.read_obj::<u8>(at(0x1e8)).unwrap(), 1);
    assert_eq!(word(&ram, at(0x2d0)), 0x10_0000);
    assert_eq!(word(&ram, at(0x2d8)), 127 << 20);
    assert_eq!(ram.read_obj::<u32>(at(0x2e0)).unwrap(), 1);
}

#[test]
fn no_memory_above_the_first_mebibyte_means_no_map_entry() {
    let mut ram = GuestRam::new(1).unwrap();
    write_zero_page(&mut ram, 0, 1 << 20).unwrap();
    assert_eq!(ram.read_obj::<u8>(ZERO_PAGE_START + 0x1e8).unwrap(), 0);
    assert_eq!(word(&ram, ZERO_PAGE_START + 0x2d0), 0);
}

/// A kernel with one segment: two bytes at `paddr`, and two zero bytes behind them.
fn kernel(entry: u64, paddr: u64) -> Vec<u8> {
    let mut k = vec![0u8; 64 + 56];
    k[..6].copy_from_slice(&[0x7f, b'E', b'L', b'F', 2, 1]);
    k[18..20].copy_from_slice(&62u16.to_le_bytes());
    k[24..32].copy_from_slice(&entry.to_le_bytes());
    k[32..40].copy_from_slice(&64u64.to_le_bytes());
    k[54..56].copy_from_slice(&56u16.to_le_bytes());
    k[56..58].copy_from_slice(&1u16.to_le_bytes());
    k[64..68].copy_from_slice(&1u32.to_le_bytes());
    k[72..80].copy_from_slice(&120u64.to_le_bytes());
    k[88..96].copy_from_slice(&paddr.to_le_bytes());
    k[96..104].copy_from_slice(&2u64.to_le_bytes());
    k[104..112].copy_from_slice(&4u64.to_le_bytes());
    k.extend_from_slice(&[0xaa, 0xbb]);
    k
}

#[test]
fn prepared_guest_has_everything() {
    let mut ram = GuestRam::new(2).unwrap();
    let loaded = prepare_guest(&mut ram, "console=ttyS0", &kernel(0x10_0040, 0x10_0000)).unwrap();
    assert_eq!(loaded.entry, 0x10_0040);
    assert_eq!(word(&ram, BOOT_GDT_OFFSET + 8), 0x00af_9b00_0000_ffff);
    assert_eq!(word(&ram, PML4_START), PDPTE_START | 0x3);
    let mut text = [0u8; 14];
    ram.read_slice(CMDLINE_START, &mut text).unwrap();
    assert_eq!(&text, b"console=ttyS0\0");
    assert_eq!(ram.read_obj::<u32>(ZERO_PAGE_START + 0x238).unwrap(), 13);
    assert_eq!(word(&ram, ZERO_PAGE_START + 0x2d8), 1 << 20);
    assert_eq!(ram.read_obj::<u32>(0x10_0000).unwrap(), 0x0000_bbaa);
}

#[test]
fn guests_that_cannot_boot_are_refused() {
    let mut ram = GuestRam::new(1).unwrap();
    match prepare_guest(&mut ram, "x", b"not a kernel") {
        Err(e) => {
            assert_eq!(e, BootError::Elf(ElfError::NotElf));
            assert_eq!(e.message("/vm/k"), "/vm/k is not an ELF file");
        }
        Ok(_) => panic!("expected an error"),
    }
    match prepare_guest(&mut ram, &"x".repeat(1 << 20), &kernel(0, 0)) {
        Err(e) => assert!(matches!(e, BootError::Ram(RamError::OutOfBounds { .. }))),
        Ok(_) => panic!("expected an error"),
    }
}
