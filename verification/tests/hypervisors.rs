use hyperpod::vmm::common::serial::Serial;
use hyperpod::vmm::kvm;
use hyperpod::vmm::vcpu::Hypervisor;
use hyperpod::vmm::whpx;

#[test]
fn kvm_registers_are_long_mode() {
    let r = kvm::long_mode_special_registers();
    assert_eq!((r.cs.selector, r.cs.type_, r.cs.s, r.cs.db, r.cs.l, r.cs.g), (0x08, 0xb, 1, 0, 1, 1));
    assert_eq!((r.ds.selector, r.ds.type_, r.ds.s, r.ds.db, r.ds.l, r.ds.g), (0x10, 0x3, 1, 1, 0, 1));
    assert_eq!((r.tr.selector, r.tr.type_, r.tr.s, r.tr.g, r.tr.limit), (0x18, 0xb, 0, 0, 0x67));
    assert!([r.es, r.fs, r.gs, r.ss].iter().all(|s| *s == r.ds));
    assert!([r.cs, r.ds, r.tr].iter().all(|s| s.present == 1 && s.base == 0 && s.unusable == 0));
    assert_eq!((r.gdt.base, r.gdt.limit, r.idt.base, r.idt.limit), (0x500, 31, 0x520, 7));
    assert_eq!(r.cr0, 1 | 1 << 31);
    assert_eq!(r.cr3, 0x9000);
    assert_eq!(r.cr4, 1 << 5);
    assert_eq!(r.efer, 1 << 8 | 1 << 10);
    let g = kvm::long_mode_general_registers(0x100_0000);
    assert_eq!((g.rflags, g.rip, g.rsp, g.rsi), (0x2, 0x100_0000, 0x8ff0, 0x7000));
}

#[test]
fn kvm_port_accesses() {
    let serial = Serial::new();
    let mut data = [7u8];
    assert_eq!(kvm::on_port_read(&serial, 0x3fd, &mut data), None);
    assert_eq!(data, [0x60]);
    data = [7];
    assert_eq!(
        kvm::on_port_read(&serial, 0x60, &mut data).as_deref(),
        Some("hyperpod[kvm]: unhandled PIO in 0x60")
    );
    assert_eq!(data, [7]);
    let w = kvm::on_port_write(&serial, 0x3f8, b"A");
    assert_eq!((w.console, w.log), (Some(b'A'), None));
    let w = kvm::on_port_write(&serial, 0x80, b"A");
    assert_eq!(w.console, None);
    assert_eq!(w.log.as_deref(), Some("hyperpod[kvm]: unhandled PIO out 0x80"));
}

#[test]
fn kvm_exits() {
    let cases = [
        (kvm::Exit::MmioRead { addr: 0xd000_0000 }, false, "unhandled MMIO read at 0xd0000000"),
        (kvm::Exit::MmioWrite { addr: 0xfee0 }, false, "unhandled MMIO write at 0xfee0"),
        (kvm::Exit::Halt, true, "guest HLT"),
        (kvm::Exit::Shutdown, true, "guest shutdown (panic / triple fault)"),
        (kvm::Exit::Other { description: "Intr".to_string() }, false, "unhandled vCPU exit Intr"),
    ];
    for (exit, last, text) in cases {
        assert_eq!(exit.is_last(), last);
        assert_eq!(exit.message(), format!("hyperpod[kvm]: {text}"));
    }
}

#[test]
fn whpx_registers_are_long_mode() {
    let r = whpx::long_mode_registers(0x1234);
    assert_eq!(r.len(), 18);
    let of = |g: whpx::Register| r.iter().find(|(n, _)| *n == g).unwrap().1;
    let seg = |selector, attributes, limit| {
        whpx::Value::Segment(whpx::Segment { base: 0, limit, selector, attributes })
    };
    assert_eq!(of(whpx::Register::Cs), seg(0x08, 0xa09b, 0xffff_ffff));
    assert_eq!(of(whpx::Register::Gs), seg(0x10, 0xc093, 0xffff_ffff));
    assert_eq!(of(whpx::Register::Tr), seg(0x18, 0x008b, 0x67));
    assert_eq!(of(whpx::Register::Ldtr), seg(0, 0x0082, 0xffff));
    assert_eq!(
        of(whpx::Register::Gdtr),
        whpx::Value::Table(whpx::Table { base: 0x500, limit: 31 })
    );
    assert_eq!(of(whpx::Register::Rip), whpx::Value::Word(0x1234));
    assert_eq!(of(whpx::Register::Cr0), whpx::Value::Word(0x8000_0001));
    assert_eq!(r[17], (whpx::Register::Rsi, whpx::Value::Word(0x7000)));
}

#[test]
fn whpx_failures_in_words() {
    assert_eq!(whpx::check(0), Ok(()));
    let e = whpx::check(-2147024891).unwrap_err();
    assert_eq!(e.message("WHvCreatePartition"), "WHvCreatePartition failed: HRESULT 0x80070005");
    assert_eq!(whpx::check(1).unwrap_err().message("f"), "f failed: HRESULT 0x00000001");
}

fn port(port: u16, access_info: u32, rax: u64) -> whpx::Exit {
    whpx::Exit::PortAccess { rip: 0x1000, length: 2, port, access_info, rax }
}

#[test]
fn whpx_port_accesses() {
    let serial = Serial::new();
    let a = whpx::on_exit(&serial, port(0x3f8, 0b0011, 0x1_4241));
    assert_eq!((a.console, a.rax, a.rip, a.resume, a.log), (Some(0x41), None, Some(0x1002), true, None));
    let a = whpx::on_exit(&serial, port(0x3fd, 0b0010, 0));
    assert_eq!((a.console, a.rax, a.rip, a.resume, a.log), (None, Some(0x60), Some(0x1002), true, None));
    let a = whpx::on_exit(&serial, port(0x3f9, 0b1110, 0));
    assert_eq!((a.console, a.rax, a.rip), (None, Some(0), Some(0x1002)));
    let a = whpx::on_exit(&serial, port(0x80, 1, 0));
    assert_eq!(a.log.as_deref(), Some("hyperpod[whpx]: unhandled OUT 0x80"));
    assert_eq!((a.rax, a.rip, a.resume), (None, Some(0x1002), true));
    let a = whpx::on_exit(&serial, port(0xcfc, 0, 0));
    assert_eq!(a.log.as_deref(), Some("hyperpod[whpx]: unhandled IN 0xcfc"));
}

#[test]
fn whpx_other_exits() {
    let serial = Serial::new();
    let go = |e| {
        let a = whpx::on_exit(&serial, e);
        (a.log, a.rip, a.resume)
    };
    let text = |s: &str| Some(format!("hyperpod[whpx]: {s}"));
    assert_eq!(go(whpx::Exit::Nothing), (None, None, true));
    assert_eq!(go(whpx::Exit::Halt), (text("guest HLT"), None, false));
    assert_eq!(
        go(whpx::Exit::UnrecoverableException),
        (text("guest unrecoverable exception"), None, false)
    );
    assert_eq!(
        go(whpx::Exit::MemoryAccess { rip: 10, length: 3, gpa: 0xfee0_0000 }),
        (text("unhandled MMIO @ 0xfee00000"), Some(13), true)
    );
    assert_eq!(go(whpx::Exit::Canceled), (text("run canceled, continuing"), None, true));
    assert_eq!(
        go(whpx::Exit::Other { reason: 4096 }),
        (text("unhandled exit reason 4096"), None, false)
    );
    assert_eq!(
        go(whpx::Exit::Other { reason: i32::MIN }),
        (text("unhandled exit reason -2147483648"), None, false)
    );
}

#[test]
fn entering_names_the_entry_point() {
    assert_eq!(
        Hypervisor::Kvm.entering(0x100_0000, 128),
        "hyperpod[kvm]: entering vCPU at 0x1000000 with 128 MiB RAM"
    );
}
