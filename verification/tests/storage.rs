use hyperpod::vmm::common::ram::Access;
use hyperpod::vmm::common::storage::raw::{RawBackend, RawError};
use hyperpod::vmm::common::storage::vhd::{VhdError, VhdFixedBackend};
use hyperpod::vmm::common::storage::{
    classify_vhd, detect_format, hint_of_extension, open, Backend, BlockBackend, Format,
    ImageProbe, NameHint, SectorError, StorageError, SECTOR_SIZE, VHDX_HEAD_MAGIC,
    VHD_FOOTER_COOKIE,
};

/// Reads of an image held in memory what is read of one on disk.
fn probe(image: &[u8]) -> ImageProbe {
    let mut footer = [0u8; 512];
    if image.len() >= 512 {
        footer.copy_from_slice(&image[image.len() - 512..]);
    }
    ImageProbe { head: image[..image.len().min(8)].to_vec(), len: image.len() as u64, footer }
}

fn read<B: BlockBackend>(be: &B, image: &[u8], sector: u64, buf: &mut [u8]) -> Result<(), SectorError> {
    let at = be.read_sector(sector, buf.len())? as usize;
    buf.copy_from_slice(&image[at..at + buf.len()]);
    Ok(())
}

fn write<B: BlockBackend>(be: &B, image: &mut [u8], sector: u64, buf: &[u8]) -> Result<(), SectorError> {
    let at = be.write_sector(sector, buf.len())? as usize;
    image[at..at + buf.len()].copy_from_slice(buf);
    Ok(())
}

fn vhd_footer(original_size: u64, disk_type: u32) -> [u8; 512] {
    let mut footer = [0u8; 512];
    footer[..8].copy_from_slice(&VHD_FOOTER_COOKIE);
    footer[40..48].copy_from_slice(&original_size.to_be_bytes());
    footer[48..56].copy_from_slice(&original_size.to_be_bytes());
    footer[60..64].copy_from_slice(&disk_type.to_be_bytes());
    footer
}

/// Builds a minimal valid fixed VHD: payload of `sectors * 512` bytes
/// followed by a 512-byte footer with the required fields.
fn make_fixed_vhd(sectors: u64) -> Vec<u8> {
    let mut image = vec![0u8; (sectors * SECTOR_SIZE) as usize];
    image.extend_from_slice(&vhd_footer(sectors * SECTOR_SIZE, 2));
    image
}

fn make_image(sectors: u64) -> Vec<u8> {
    vec![0u8; (sectors * SECTOR_SIZE) as usize]
}

#[test]
fn detects_raw_by_extension() {
    let image = vec![0u8; SECTOR_SIZE as usize * 4];
    assert_eq!(detect_format(Some("raw"), &probe(&image)).unwrap(), Format::Raw);
}

#[test]
fn detects_vhdx_by_magic_without_extension() {
    let mut image = b"vhdxfile".to_vec();
    image.extend_from_slice(&vec![0u8; 4096]);
    assert_eq!(detect_format(None, &probe(&image)).unwrap(), Format::Vhdx);
}

#[test]
fn open_rejects_vhdx_with_clear_message() {
    let mut image = b"vhdxfile".to_vec();
    image.extend_from_slice(&vec![0u8; 4096]);
    let err = match open(Some("vhdx"), &probe(&image)) {
        Ok(_) => panic!("expected open() to reject VHDX"),
        Err(e) => e,
    };
    assert!(err.message("disk.vhdx").contains("VHDX"), "{}", err.message("disk.vhdx"));
}

#[test]
fn round_trip_sector() {
    let mut image = make_image(4);
    let be = RawBackend::open(image.len() as u64).unwrap();
    let mut data = vec![0xa5u8; SECTOR_SIZE as usize];
    write(&be, &mut image, 2, &data).unwrap();
    data.fill(0);
    read(&be, &image, 2, &mut data).unwrap();
    assert!(data.iter().all(|&b| b == 0xa5));
}

#[test]
fn rejects_misaligned_image() {
    let image = vec![0u8; 1024 + 1];
    assert!(RawBackend::open(image.len() as u64).is_err());
}

#[test]
fn rejects_out_of_range_sector() {
    let mut image = make_image(4);
    let be = RawBackend::open(image.len() as u64).unwrap();
    let buf = vec![0u8; SECTOR_SIZE as usize];
    assert!(write(&be, &mut image, 4, &buf).is_err());
}

#[test]
fn open_and_round_trip_fixed_vhd() {
    let mut image = make_fixed_vhd(4);
    let be = VhdFixedBackend::open(&probe(&image)).unwrap();
    assert_eq!(be.sector_count(), 4);
    let mut buf = vec![0x5au8; SECTOR_SIZE as usize];
    write(&be, &mut image, 1, &buf).unwrap();
    buf.fill(0);
    read(&be, &image, 1, &mut buf).unwrap();
    assert!(buf.iter().all(|&b| b == 0x5a));
}

#[test]
fn rejects_dynamic_disk_type() {
    let mut image = vec![0u8; (SECTOR_SIZE * 4) as usize];
    let mut footer = [0u8; 512];
    footer[..8].copy_from_slice(b"conectix");
    footer[40..48].copy_from_slice(&(SECTOR_SIZE * 4).to_be_bytes());
    footer[60..64].copy_from_slice(&3u32.to_be_bytes()); // dynamic
    image.extend_from_slice(&footer);
    let err = match VhdFixedBackend::open(&probe(&image)) {
        Ok(_) => panic!("expected dynamic VHD to be rejected"),
        Err(e) => e,
    };
    assert!(err.message("disk.vhd").contains("dynamic"));
}

#[test]
fn magic_numbers_spell_their_words() {
    assert_eq!(&VHD_FOOTER_COOKIE, b"conectix");
    assert_eq!(&VHDX_HEAD_MAGIC, b"vhdxfile");
}

#[test]
fn extensions_are_matched_in_any_case() {
    assert_eq!(hint_of_extension(Some("RAW")), NameHint::Known(Format::Raw));
    assert_eq!(hint_of_extension(Some("Img")), NameHint::Known(Format::Raw));
    assert_eq!(hint_of_extension(Some("eXt4")), NameHint::Known(Format::Raw));
    assert_eq!(hint_of_extension(Some("VHD")), NameHint::Vhd);
    assert_eq!(hint_of_extension(Some("VhdX")), NameHint::Known(Format::Vhdx));
    assert_eq!(hint_of_extension(Some("qcow2")), NameHint::Unclear);
    assert_eq!(hint_of_extension(Some("\u{212a}raw")), NameHint::Unclear);
    assert_eq!(hint_of_extension(None), NameHint::Unclear);
}

#[test]
fn formats_are_told_by_content() {
    let fixed = make_fixed_vhd(2);
    assert_eq!(detect_format(Some("bin"), &probe(&fixed)), Ok(Format::VhdFixed));
    let mut dynamic = make_image(2);
    dynamic.extend_from_slice(&vhd_footer(1024, 4));
    assert_eq!(detect_format(None, &probe(&dynamic)), Ok(Format::VhdDynamic));
    assert_eq!(detect_format(None, &probe(b"vhdxfil")), Ok(Format::Raw));
    assert_eq!(detect_format(None, &probe(&make_image(1))), Ok(Format::Raw));
    assert_eq!(Format::VhdDynamic.name(), "VhdDynamic");
}

#[test]
fn detection_never_fails_on_a_bad_vhd() {
    let images = [vec![], vec![0; 511], make_image(1), vhd_footer(512, 7).to_vec()];
    let errors = [
        VhdError::TooSmall,
        VhdError::TooSmall,
        VhdError::MissingCookie,
        VhdError::UnsupportedType { disk_type: 7 },
    ];
    for (image, error) in images.iter().zip(errors) {
        let p = probe(image);
        assert_eq!(classify_vhd(&p), Format::VhdFixed);
        assert_eq!(detect_format(Some("vhd"), &p), Ok(Format::VhdFixed));
        assert_eq!(open(Some("vhd"), &p).unwrap_err(), StorageError::Vhd(error));
    }
}

#[test]
fn open_dispatches_by_format() {
    match open(Some("img"), &probe(&make_image(3))) {
        Ok(Backend::Raw(b)) => assert_eq!(b.sector_count(), 3),
        _ => panic!("expected a raw image"),
    }
    match open(None, &probe(&make_fixed_vhd(5))) {
        Ok(b) => {
            assert!(matches!(b, Backend::VhdFixed(_)));
            assert_eq!(b.sector_count(), 5);
            assert_eq!(b.read_sector(4, 512), Ok(2048));
            assert_eq!(b.write_sector(0, 512), Ok(0));
        }
        Err(_) => panic!("expected a fixed VHD"),
    }
    let mut dynamic = make_image(2);
    dynamic.extend_from_slice(&vhd_footer(1024, 3));
    let e = open(Some("vhd"), &probe(&dynamic)).unwrap_err();
    assert_eq!(e, StorageError::DynamicVhd);
    assert_eq!(
        e.message("a.vhd"),
        "a.vhd is a dynamic VHD; HyperPod 0.1.x only supports fixed VHD. \
         Convert with `qemu-img convert -O vpc -o subformat=fixed`."
    );
    let e = open(Some("vhdx"), &probe(&[])).unwrap_err();
    assert_eq!(e, StorageError::Vhdx);
    assert_eq!(
        e.message("a.vhdx"),
        "a.vhdx is VHDX; HyperPod 0.1.x does not yet support VHDX. \
         Convert with `qemu-img convert -O raw` or `-O vpc -o subformat=fixed`."
    );
    let e = open(Some("raw"), &probe(&[])).unwrap_err();
    assert_eq!(e, StorageError::Raw(RawError::Empty));
    assert_eq!(e.message("a.raw"), "a.raw is empty");
    let e = open(Some("raw"), &probe(&[0; 513])).unwrap_err();
    assert_eq!(e, StorageError::Raw(RawError::Misaligned { len: 513 }));
    assert_eq!(e.message("a.raw"), "a.raw length 513 is not a multiple of 512");
}

#[test]
fn vhd_footers_are_checked_in_order() {
    let open_vhd = |image: &[u8]| VhdFixedBackend::open(&probe(image)).unwrap_err();
    assert_eq!(open_vhd(&[0; 100]), VhdError::TooSmall);
    assert_eq!(open_vhd(&make_image(1)), VhdError::MissingCookie);
    assert_eq!(open_vhd(&vhd_footer(0, 4)), VhdError::Differencing);
    assert_eq!(open_vhd(&vhd_footer(0, 9)), VhdError::UnsupportedType { disk_type: 9 });
    assert_eq!(open_vhd(&vhd_footer(0, 2)), VhdError::ZeroSize);
    assert_eq!(open_vhd(&vhd_footer(512, 2)), VhdError::Truncated { original_size: 512, len: 512 });
    assert_eq!(
        open_vhd(&vhd_footer(u64::MAX, 2)),
        VhdError::Truncated { original_size: u64::MAX, len: 512 }
    );
    let mut odd = make_image(1);
    odd.extend_from_slice(&vhd_footer(100, 2));
    assert_eq!(open_vhd(&odd), VhdError::Misaligned { original_size: 100 });
}

#[test]
fn vhd_errors_in_words() {
    assert_eq!(VhdError::TooSmall.message("d"), "d is too small to be a VHD");
    assert_eq!(VhdError::MissingCookie.message("d"), "d is missing the VHD footer cookie");
    assert_eq!(
        VhdError::Dynamic.message("d"),
        "d is a dynamic VHD; only fixed VHDs are supported by this backend"
    );
    assert_eq!(
        VhdError::Differencing.message("d"),
        "d is a differencing VHD; only fixed VHDs are supported by this backend"
    );
    assert_eq!(
        VhdError::UnsupportedType { disk_type: 9 }.message("d"),
        "d has unsupported VHD disk_type 9"
    );
    assert_eq!(VhdError::ZeroSize.message("d"), "d reports zero original_size in VHD footer");
    assert_eq!(
        VhdError::Truncated { original_size: 512, len: 600 }.message("d"),
        "d footer original_size=512 but file length is 600"
    );
    assert_eq!(
        StorageError::Vhd(VhdError::Misaligned { original_size: 100 }).message("d"),
        "d original_size 100 not a multiple of 512"
    );
}

#[test]
fn sector_errors_in_words() {
    let be = RawBackend::open(2048).unwrap();
    let e = be.read_sector(4, 512).unwrap_err();
    assert_eq!(e, SectorError::OutOfRange { access: Access::Read, sector: 4, total: 4 });
    assert_eq!(e.message(), "read sector 4 out of range (4 total)");
    let e = be.write_sector(3, 511).unwrap_err();
    assert_eq!(e, SectorError::BadBuffer { access: Access::Write });
    assert_eq!(e.message(), "write buffer must be 512 bytes");
}

#[test]
fn writes_leave_the_rest_of_the_image_alone() {
    let mut image = make_fixed_vhd(3);
    let before = image.clone();
    let be = VhdFixedBackend::open(&probe(&image)).unwrap();
    write(&be, &mut image, 2, &[0xff; 512]).unwrap();
    assert_eq!(&image[..1024], &before[..1024]);
    assert_eq!(&image[1536..], &before[1536..]);
    assert_eq!(VhdFixedBackend::open(&probe(&image)).unwrap().sector_count(), 3);
}
