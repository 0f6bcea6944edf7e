use hyperpod::vmm::common::ram::{Access, GuestRam, RamError, HOST_PAGE};

#[test]
fn round_trip_obj() {
    let mut ram = GuestRam::new(1).unwrap();
    ram.write_obj::<u64>(0x1000, 0xdead_beef_cafe_babe).unwrap();
    let v: u64 = ram.read_obj(0x1000).unwrap();
    assert_eq!(v, 0xdead_beef_cafe_babe);
}

#[test]
fn out_of_bounds_write_errors() {
    let mut ram = GuestRam::new(1).unwrap();
    let too_far = (ram.size() as u64) - 4;
    assert!(ram.write_obj::<u64>(too_far, 0).is_err());
}

#[test]
fn memory_starts_zeroed_and_page_aligned() {
    let ram = GuestRam::new(2).unwrap();
    assert_eq!(ram.size(), 2 * 1024 * 1024);
    assert_eq!(ram.host_ptr().len(), ram.size());
    assert_eq!(ram.host_ptr().as_ptr() as usize % HOST_PAGE, 0);
    assert!(ram.host_ptr().iter().all(|&b| b == 0));
}

#[test]
fn sizes_that_cannot_be_had_are_refused() {
    match GuestRam::new(u64::MAX) {
        Err(e) => {
            assert_eq!(e, RamError::SizeOverflow);
            assert_eq!(e.message(), "guest memory size overflows usize");
        }
        Ok(_) => panic!("expected an error"),
    }
    assert!(GuestRam::new(0).is_err());
    match GuestRam::from_allocation(1 << 20, None, 0) {
        Err(e) => {
            assert_eq!(e, RamError::Unavailable { size: 1 << 20 });
            assert_eq!(e.message(), "allocation of 1048576 bytes failed");
        }
        Ok(_) => panic!("expected an error"),
    }
}

#[test]
fn slices_round_trip_and_stay_local() {
    let mut ram = GuestRam::new(1).unwrap();
    ram.write_slice(0x10, &[1, 2, 3]).unwrap();
    let mut buf = [9u8; 5];
    ram.read_slice(0xf, &mut buf).unwrap();
    assert_eq!(buf, [0, 1, 2, 3, 0]);
    ram.write_zeros(0x11, 2).unwrap();
    ram.read_slice(0xf, &mut buf).unwrap();
    assert_eq!(buf, [0, 1, 0, 0, 0]);
}

#[test]
fn objects_are_little_endian() {
    let mut ram = GuestRam::new(1).unwrap();
    ram.write_obj::<u32>(0x100, 0x0403_0201).unwrap();
    ram.write_obj::<u16>(0x104, 0x0605).unwrap();
    ram.write_obj::<u8>(0x106, 7).unwrap();
    assert_eq!(ram.read_obj::<u64>(0x100).unwrap(), 0x0007_0605_0403_0201);
    assert_eq!(&ram.host_ptr()[0x100..0x107], &[1, 2, 3, 4, 5, 6, 7]);
}

#[test]
fn accesses_out_of_bounds_say_so() {
    let mut ram = GuestRam::new(1).unwrap();
    let e = ram.write_slice(0xf_fffe, &[0; 4]).unwrap_err();
    assert_eq!(
        e,
        RamError::OutOfBounds { access: Access::Write, start: 0xf_fffe, end: 0x10_0002, size: 0x10_0000 }
    );
    assert_eq!(e.message(), "write [0xffffe..0x100002) out of bounds (size 0x100000)");
    let e = ram.read_slice(u64::MAX, &mut [0; 2]).unwrap_err();
    assert_eq!(e, RamError::RangeOverflow { access: Access::Read });
    assert_eq!(e.message(), "read overflow");
    assert_eq!(RamError::GpaOverflow.message(), "gpa overflow");
    let mut empty: [u8; 0] = [];
    assert!(ram.read_slice(0x10_0000, &mut empty).is_ok());
}

#[test]
fn memory_is_given_up_as_it_is() {
    let mut ram = GuestRam::new(1).unwrap();
    ram.write_slice(0x10, &[1, 2, 3]).unwrap();
    let (mut memory, start) = ram.into_host_buffer();
    assert_eq!(memory.len() - start, 1 << 20);
    assert_eq!(memory[start..].as_mut_ptr() as usize % HOST_PAGE, 0);
    assert_eq!(&memory[start + 0xf..start + 0x14], &[0, 1, 2, 3, 0]);
}
