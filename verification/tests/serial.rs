use hyperpod::vmm::common::serial::Serial;

#[test]
fn serial_handles_its_eight_ports() {
    assert!(!Serial::handles(0x3f7));
    assert!((0x3f8..=0x3ff).all(Serial::handles));
    assert!(!Serial::handles(0x400));
}

#[test]
fn transmitter_passes_the_first_byte_on() {
    let s = Serial::new();
    assert_eq!(s.write(0x3f8, b"Hi"), Some(b'H'));
    assert_eq!(s.write(0x3f8, &[]), None);
    assert_eq!(s.write(0x3f9, b"H"), None);
}

#[test]
fn line_status_is_always_ready() {
    let s = Serial::default();
    let mut data = [1u8, 2];
    s.read(0x3fd, &mut data);
    assert_eq!(data, [0x60, 2]);
    s.read(0x3f8, &mut data);
    assert_eq!(data, [0, 2]);
    let mut empty: [u8; 0] = [];
    s.read(0x3fd, &mut empty);
    s.read(0, &mut empty);
}
