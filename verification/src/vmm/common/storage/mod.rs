//! Disk images: which format a file has, and where its sectors lie.

pub mod raw;
pub mod vhd;

use vstd::prelude::*;

use crate::codec::{be_value, read_be, starts_with};
use crate::text::{append_decimal, ascii_lower, decimal, is_word_ignoring_case};
use crate::vmm::common::ram::{overwrite, Access};
use crate::vmm::common::storage::raw::{raw_sectors, RawBackend, RawError};
use crate::vmm::common::storage::vhd::{vhd_sectors, VhdError, VhdFixedBackend};

verus! {

pub const SECTOR_SIZE: u64 = 512;

/// "conectix", at the start of the footer of every VHD.
pub const VHD_FOOTER_COOKIE: [u8; 8] = [0x63, 0x6f, 0x6e, 0x65, 0x63, 0x74, 0x69, 0x78];

/// "vhdxfile", at the start of every VHDX.
pub const VHDX_HEAD_MAGIC: [u8; 8] = [0x76, 0x68, 0x64, 0x78, 0x66, 0x69, 0x6c, 0x65];

/// Why a sector cannot be transferred.
#[derive(Debug, Clone, Copy, PartialEq, Eq, Structural)]
pub enum SectorError {
    /// The disk has no such sector.
    OutOfRange { access: Access, sector: u64, total: u64 },
    /// The buffer does not hold exactly one sector.
    BadBuffer { access: Access },
}

impl SectorError {
    /// The text that reports the error.
    pub open spec fn text(self) -> Seq<char> {
        match self {
            SectorError::OutOfRange { access, sector, total } => access.verb() + " sector "@
                + decimal(sector as nat) + " out of range ("@ + decimal(total as nat)
                + " total)"@,
            SectorError::BadBuffer { access } => access.verb() + " buffer must be "@ + decimal(512)
                + " bytes"@,
        }
    }

    /// Reports the error in words.
    pub fn message(&self) -> (s: String)
        ensures
            s@ == self.text(),
    {
        match *self {
            SectorError::OutOfRange { access, sector, total } => {
                let mut s = String::from_str(access.name());
                s.append(" sector ");
                append_decimal(&mut s, sector);
                s.append(" out of range (");
                append_decimal(&mut s, total);
                s.append(" total)");
                s
            },
            SectorError::BadBuffer { access } => {
                let mut s = String::from_str(access.name());
                s.append(" buffer must be ");
                append_decimal(&mut s, SECTOR_SIZE);
                s.append(" bytes");
                s
            },
        }
    }
}

/// What the transfer of `len` bytes to or from `sector` of a disk of `total` sectors
/// comes to: the place in the image file where the sector begins, or why there is none.
pub open spec fn transfer(access: Access, total: u64, sector: u64, len: nat) -> Result<
    u64,
    SectorError,
> {
    if sector >= total {
        Err(SectorError::OutOfRange { access, sector, total })
    } else if len != SECTOR_SIZE {
        Err(SectorError::BadBuffer { access })
    } else {
        Ok((sector * SECTOR_SIZE) as u64)
    }
}

/// Finds the place of a sector in its image file.
fn locate(access: Access, total: u64, sector: u64, len: usize) -> (r: Result<u64, SectorError>)
    requires
        total * SECTOR_SIZE <= u64::MAX,
    ensures
        r == transfer(access, total, sector, len as nat),
{
    if sector >= total {
        return Err(SectorError::OutOfRange { access, sector, total });
    }
    if len as u64 != SECTOR_SIZE {
        return Err(SectorError::BadBuffer { access });
    }
    Ok(sector * SECTOR_SIZE)
}

/// A virtual block device backed by an image file. A transfer answers with the place in
/// the file of the sector's bytes.
pub trait BlockBackend {
    /// The number of sectors of the disk.
    spec fn sectors(&self) -> u64;

    /// The number of sectors of the disk.
    fn sector_count(&self) -> (n: u64)
        ensures
            n == self.sectors(),
    ;

    /// Where in the file to read the `len` bytes of `sector`.
    fn read_sector(&self, sector: u64, len: usize) -> (r: Result<u64, SectorError>)
        ensures
            r == transfer(Access::Read, self.sectors(), sector, len as nat),
    ;

    /// Where in the file to write the `len` bytes of `sector`.
    fn write_sector(&self, sector: u64, len: usize) -> (r: Result<u64, SectorError>)
        ensures
            r == transfer(Access::Write, self.sectors(), sector, len as nat),
    ;
}

/// The format of a disk image.
#[derive(Debug, Clone, Copy, PartialEq, Eq, Structural)]
pub enum Format {
    Raw,
    VhdFixed,
    VhdDynamic,
    Vhdx,
}

impl Format {
    /// The format's name.
    pub open spec fn label(self) -> Seq<char> {
        match self {
            Format::Raw => "Raw"@,
            Format::VhdFixed => "VhdFixed"@,
            Format::VhdDynamic => "VhdDynamic"@,
            Format::Vhdx => "Vhdx"@,
        }
    }

    /// The format's name.
    pub fn name(&self) -> (s: &'static str)
        ensures
            s@ == self.label(),
    {
        match *self {
            Format::Raw => "Raw",
            Format::VhdFixed => "VhdFixed",
            Format::VhdDynamic => "VhdDynamic",
            Format::Vhdx => "Vhdx",
        }
    }
}

/// What is read of an image file to tell its format.
#[derive(Debug, Clone)]
pub struct ImageProbe {
    /// The first bytes of the file, eight at most.
    pub head: Vec<u8>,
    /// The length of the file.
    pub len: u64,
    /// The last sector of the file. Means nothing where the file is shorter.
    pub footer: [u8; 512],
}

/// What the file of which `p` was read must look like.
pub open spec fn probed(p: ImageProbe, file: Seq<u8>) -> bool {
    &&& p.len == file.len()
    &&& p.head@ == file.take(if file.len() < 8 {
        file.len() as int
    } else {
        8
    })
    &&& file.len() >= SECTOR_SIZE ==> p.footer@ == file.skip(file.len() - SECTOR_SIZE)
}

/// The field `disk_type` of a VHD footer.
pub open spec fn disk_type(footer: Seq<u8>) -> nat {
    be_value(footer.subrange(60, 64))
}

/// The field `original_size` of a VHD footer.
pub open spec fn original_size(footer: Seq<u8>) -> nat {
    be_value(footer.subrange(40, 48))
}

/// Why an image cannot be used.
#[derive(Debug, Clone, Copy, PartialEq, Eq, Structural)]
pub enum StorageError {
    /// A dynamic or differencing VHD.
    DynamicVhd,
    /// A VHDX.
    Vhdx,
    /// Not usable as a raw image.
    Raw(RawError),
    /// Not usable as a fixed VHD.
    Vhd(VhdError),
}

impl StorageError {
    /// The text that reports the error for the image at `path`.
    pub open spec fn text(self, path: Seq<char>) -> Seq<char> {
        match self {
            StorageError::DynamicVhd => path
                + " is a dynamic VHD; HyperPod 0.1.x only supports fixed VHD. "@
                + "Convert with `qemu-img convert -O vpc -o subformat=fixed`."@,
            StorageError::Vhdx => path + " is VHDX; HyperPod 0.1.x does not yet support VHDX. "@
                + "Convert with `qemu-img convert -O raw` or `-O vpc -o subformat=fixed`."@,
            StorageError::Raw(e) => e.text(path),
            StorageError::Vhd(e) => e.text(path),
        }
    }

    /// Reports the error in words, for the image at `path`.
    pub fn message(&self, path: &str) -> (s: String)
        ensures
            s@ == self.text(path@),
    {
        match *self {
            StorageError::DynamicVhd => {
                let mut s = String::from_str(path);
                s.append(" is a dynamic VHD; HyperPod 0.1.x only supports fixed VHD. ");
                s.append("Convert with `qemu-img convert -O vpc -o subformat=fixed`.");
                s
            },
            StorageError::Vhdx => {
                let mut s = String::from_str(path);
                s.append(" is VHDX; HyperPod 0.1.x does not yet support VHDX. ");
                s.append("Convert with `qemu-img convert -O raw` or `-O vpc -o subformat=fixed`.");
                s
            },
            StorageError::Raw(e) => e.message(path),
            StorageError::Vhd(e) => e.message(path),
        }
    }
}

/// What the extension of an image's file name says of its format.
#[derive(Debug, Clone, Copy, PartialEq, Eq, Structural)]
pub enum NameHint {
    /// It settles the format.
    Known(Format),
    /// A VHD, whose footer says of which kind.
    Vhd,
    /// Nothing.
    Unclear,
}

/// The characters of an extension, if there is one.
pub open spec fn extension(ext: Option<&str>) -> Option<Seq<char>> {
    match ext {
        None => None,
        Some(e) => Some(e@),
    }
}

/// `e` is `word`, in capitals or not.
pub open spec fn reads_as(e: Seq<char>, word: Seq<char>) -> bool {
    e.map_values(|c: char| ascii_lower(c)) == word
}

/// What the extension `ext` says.
pub open spec fn name_hint(ext: Option<Seq<char>>) -> NameHint {
    match ext {
        None => NameHint::Unclear,
        Some(e) => if reads_as(e, "raw"@) || reads_as(e, "img"@) || reads_as(e, "ext4"@) {
            NameHint::Known(Format::Raw)
        } else if reads_as(e, "vhd"@) {
            NameHint::Vhd
        } else if reads_as(e, "vhdx"@) {
            NameHint::Known(Format::Vhdx)
        } else {
            NameHint::Unclear
        },
    }
}

/// Tells what the extension of a file name says of the format. Nothing need be read of
/// a file whose name settles it.
pub fn hint_of_extension(ext: Option<&str>) -> (h: NameHint)
    ensures
        h == name_hint(extension(ext)),
{
    match ext {
        None => NameHint::Unclear,
        Some(e) => {
            if is_word_ignoring_case(e, "raw") || is_word_ignoring_case(e, "img")
                || is_word_ignoring_case(e, "ext4") {
                NameHint::Known(Format::Raw)
            } else if is_word_ignoring_case(e, "vhd") {
                NameHint::Vhd
            } else if is_word_ignoring_case(e, "vhdx") {
                NameHint::Known(Format::Vhdx)
            } else {
                NameHint::Unclear
            }
        },
    }
}

/// The kind of VHD that a file of `len` bytes with `footer` at its end is. Only a footer
/// can tell a dynamic or differencing one; anything else is taken for a fixed one, which
/// opening it then holds to the footer.
pub open spec fn vhd_kind(len: u64, footer: Seq<u8>) -> Format {
    if len >= SECTOR_SIZE && VHD_FOOTER_COOKIE@.is_prefix_of(footer) && (disk_type(footer) == 3
        || disk_type(footer) == 4) {
        Format::VhdDynamic
    } else {
        Format::VhdFixed
    }
}

/// The format of an image by its extension first, and then by its contents.
pub open spec fn detected(ext: Option<Seq<char>>, p: ImageProbe) -> Format {
    match name_hint(ext) {
        NameHint::Known(f) => f,
        NameHint::Vhd => vhd_kind(p.len, p.footer@),
        NameHint::Unclear => if VHDX_HEAD_MAGIC@.is_prefix_of(p.head@) {
            Format::Vhdx
        } else if p.len >= SECTOR_SIZE && VHD_FOOTER_COOKIE@.is_prefix_of(p.footer@) {
            vhd_kind(p.len, p.footer@)
        } else {
            Format::Raw
        },
    }
}

/// Tells which kind of VHD an image is.
pub fn classify_vhd(probe: &ImageProbe) -> (f: Format)
    ensures
        f == vhd_kind(probe.len, probe.footer@),
{
    if probe.len < SECTOR_SIZE {
        return Format::VhdFixed;
    }
    if !starts_with(probe.footer.as_slice(), VHD_FOOTER_COOKIE.as_slice()) {
        return Format::VhdFixed;
    }
    let disk_type: u64 = read_be(probe.footer.as_slice(), 60, 4);
    match disk_type {
        3 | 4 => Format::VhdDynamic,
        _ => Format::VhdFixed,
    }
}

/// Tells the format of an image by its extension first, and then by its contents: the
/// magic number at its head for VHDX, the cookie in its footer for VHD. Once the image
/// has been read, this does not fail.
pub fn detect_format(ext: Option<&str>, probe: &ImageProbe) -> (r: Result<Format, StorageError>)
    ensures
        r is Ok,
        r == Ok::<Format, StorageError>(detected(extension(ext), *probe)),
{
    match hint_of_extension(ext) {
        NameHint::Known(f) => Ok(f),
        NameHint::Vhd => Ok(classify_vhd(probe)),
        NameHint::Unclear => {
            if starts_with(probe.head.as_slice(), VHDX_HEAD_MAGIC.as_slice()) {
                return Ok(Format::Vhdx);
            }
            if probe.len >= SECTOR_SIZE && starts_with(
                probe.footer.as_slice(),
                VHD_FOOTER_COOKIE.as_slice(),
            ) {
                return Ok(classify_vhd(probe));
            }
            Ok(Format::Raw)
        },
    }
}

/// A disk image in one of the formats that can be served.
#[derive(Debug)]
pub enum Backend {
    Raw(RawBackend),
    VhdFixed(VhdFixedBackend),
}

impl Backend {
    /// The image's format.
    pub open spec fn format(&self) -> Format {
        match self {
            Backend::Raw(_) => Format::Raw,
            Backend::VhdFixed(_) => Format::VhdFixed,
        }
    }
}

impl BlockBackend for Backend {
    open spec fn sectors(&self) -> u64 {
        match self {
            Backend::Raw(b) => b.sectors(),
            Backend::VhdFixed(b) => b.sectors(),
        }
    }

    fn sector_count(&self) -> (n: u64) {
        match self {
            Backend::Raw(b) => b.sector_count(),
            Backend::VhdFixed(b) => b.sector_count(),
        }
    }

    fn read_sector(&self, sector: u64, len: usize) -> (r: Result<u64, SectorError>) {
        match self {
            Backend::Raw(b) => b.read_sector(sector, len),
            Backend::VhdFixed(b) => b.read_sector(sector, len),
        }
    }

    fn write_sector(&self, sector: u64, len: usize) -> (r: Result<u64, SectorError>) {
        match self {
            Backend::Raw(b) => b.write_sector(sector, len),
            Backend::VhdFixed(b) => b.write_sector(sector, len),
        }
    }
}

/// The format and the number of sectors of the disk that an image holds.
pub open spec fn opened(ext: Option<Seq<char>>, p: ImageProbe) -> Result<
    (Format, u64),
    StorageError,
> {
    match detected(ext, p) {
        Format::Raw => match raw_sectors(p.len) {
            Ok(n) => Ok((Format::Raw, n)),
            Err(e) => Err(StorageError::Raw(e)),
        },
        Format::VhdFixed => match vhd_sectors(p.len, p.footer@) {
            Ok(n) => Ok((Format::VhdFixed, n)),
            Err(e) => Err(StorageError::Vhd(e)),
        },
        Format::VhdDynamic => Err(StorageError::DynamicVhd),
        Format::Vhdx => Err(StorageError::Vhdx),
    }
}

/// Opens an image as a block device, as its format asks.
pub fn open(ext: Option<&str>, probe: &ImageProbe) -> (r: Result<Backend, StorageError>)
    ensures
        match r {
            Ok(b) => opened(extension(ext), *probe) == Ok::<(Format, u64), StorageError>(
                (b.format(), b.sectors()),
            ),
            Err(e) => opened(extension(ext), *probe) == Err::<(Format, u64), StorageError>(e),
        },
{
    match detect_format(ext, probe) {
        Err(e) => Err(e),
        Ok(Format::Raw) => match RawBackend::open(probe.len) {
            Ok(b) => Ok(Backend::Raw(b)),
            Err(e) => Err(StorageError::Raw(e)),
        },
        Ok(Format::VhdFixed) => match VhdFixedBackend::open(probe) {
            Ok(b) => Ok(Backend::VhdFixed(b)),
            Err(e) => Err(StorageError::Vhd(e)),
        },
        Ok(Format::VhdDynamic) => Err(StorageError::DynamicVhd),
        Ok(Format::Vhdx) => Err(StorageError::Vhdx),
    }
}

/// Where the payload of an image file of `len` bytes ends.
pub open spec fn payload_end(format: Format, len: int) -> int {
    if format == Format::VhdFixed {
        len - SECTOR_SIZE
    } else {
        len
    }
}

/// The bytes of `sector` in the image `file`.
pub open spec fn sector_bytes(file: Seq<u8>, sector: u64) -> Seq<u8> {
    file.subrange(sector * SECTOR_SIZE, sector * SECTOR_SIZE + SECTOR_SIZE)
}

/// An opened image has a sector. Every sector can be read and written as a whole, in
/// the same place, which lies inside the payload.
pub proof fn law_sectors_lie_in_payload(
    ext: Option<Seq<char>>,
    p: ImageProbe,
    file: Seq<u8>,
    sector: u64,
)
    requires
        probed(p, file),
        opened(ext, p) is Ok,
    ensures
        ({
            let (format, n) = opened(ext, p)->Ok_0;
            let read = transfer(Access::Read, n, sector, SECTOR_SIZE as nat);
            let write = transfer(Access::Write, n, sector, SECTOR_SIZE as nat);
            &&& n > 0
            &&& read is Ok <==> sector < n
            &&& write is Ok <==> sector < n
            &&& sector < n ==> {
                &&& read->Ok_0 == write->Ok_0 == sector * SECTOR_SIZE
                &&& read->Ok_0 + SECTOR_SIZE <= payload_end(format, file.len() as int)
            }
        }),
{
}

/// A sector reads back as it was written. Writing it changes no other sector, neither
/// the length nor the end of the file behind the payload.
pub proof fn law_sector_round_trip(
    ext: Option<Seq<char>>,
    p: ImageProbe,
    file: Seq<u8>,
    sector: u64,
    data: Seq<u8>,
    other: u64,
)
    requires
        probed(p, file),
        opened(ext, p) is Ok,
        sector < (opened(ext, p)->Ok_0).1,
        other < (opened(ext, p)->Ok_0).1,
        data.len() == SECTOR_SIZE,
    ensures
        ({
            let (format, n) = opened(ext, p)->Ok_0;
            let at = transfer(Access::Write, n, sector, data.len())->Ok_0;
            let after = overwrite(file, at as int, data);
            let end = payload_end(format, file.len() as int);
            &&& after.len() == file.len()
            &&& sector_bytes(after, sector) == data
            &&& other != sector ==> sector_bytes(after, other) == sector_bytes(file, other)
            &&& after.skip(end) == file.skip(end)
        }),
{
    let (format, n) = opened(ext, p)->Ok_0;
    let at = sector * SECTOR_SIZE;
    let after = overwrite(file, at, data);
    let end = payload_end(format, file.len() as int);
    assert(sector_bytes(after, sector) =~= data);
    if other < sector {
        assert(other * SECTOR_SIZE + SECTOR_SIZE <= at);
        assert(sector_bytes(after, other) =~= sector_bytes(file, other));
    } else if other > sector {
        assert(at + SECTOR_SIZE <= other * SECTOR_SIZE);
        assert(sector_bytes(after, other) =~= sector_bytes(file, other));
    }
    assert(after.skip(end) =~= file.skip(end));
}

/// An image whose extension tells a raw image or a VHD opens in the same way after a
/// sector was written, whatever was written.
pub proof fn law_writes_keep_format(
    ext: Option<Seq<char>>,
    p: ImageProbe,
    file: Seq<u8>,
    sector: u64,
    data: Seq<u8>,
    after: ImageProbe,
)
    requires
        probed(p, file),
        opened(ext, p) is Ok,
        name_hint(ext) !is Unclear,
        sector < (opened(ext, p)->Ok_0).1,
        data.len() == SECTOR_SIZE,
        probed(after, overwrite(file, sector * SECTOR_SIZE, data)),
    ensures
        opened(ext, after) == opened(ext, p),
{
    law_sector_round_trip(ext, p, file, sector, data, sector);
}

/// Files with the extension `raw`, `img` or `ext4` are raw images whatever is in them,
/// and open where they hold whole sectors and at least one.
pub proof fn law_raw_extensions(ext: Seq<char>, p: ImageProbe)
    requires
        reads_as(ext, "raw"@) || reads_as(ext, "img"@) || reads_as(ext, "ext4"@),
    ensures
        detected(Some(ext), p) == Format::Raw,
        opened(Some(ext), p) is Ok <==> p.len > 0 && p.len % SECTOR_SIZE == 0,
        opened(Some(ext), p) is Ok ==> opened(Some(ext), p) == Ok::<(Format, u64), StorageError>(
            (Format::Raw, p.len / SECTOR_SIZE),
        ),
{
}

/// A VHDX never opens, whether its extension or its head tells it.
pub proof fn law_vhdx_is_refused(ext: Option<Seq<char>>, p: ImageProbe)
    requires
        name_hint(ext) == NameHint::Known(Format::Vhdx) || (name_hint(ext) is Unclear
            && VHDX_HEAD_MAGIC@.is_prefix_of(p.head@)),
    ensures
        detected(ext, p) == Format::Vhdx,
        opened(ext, p) == Err::<(Format, u64), StorageError>(StorageError::Vhdx),
{
}

/// `p` was read of a VHD, and is told as one by its extension or by its footer.
pub open spec fn told_as_vhd(ext: Option<Seq<char>>, p: ImageProbe) -> bool {
    &&& p.len >= SECTOR_SIZE
    &&& VHD_FOOTER_COOKIE@.is_prefix_of(p.footer@)
    &&& name_hint(ext) is Vhd || (name_hint(ext) is Unclear && !VHDX_HEAD_MAGIC@.is_prefix_of(
        p.head@,
    ))
}

/// A dynamic or differencing VHD never opens.
pub proof fn law_dynamic_vhd_is_refused(ext: Option<Seq<char>>, p: ImageProbe)
    requires
        told_as_vhd(ext, p),
        disk_type(p.footer@) == 3 || disk_type(p.footer@) == 4,
    ensures
        detected(ext, p) == Format::VhdDynamic,
        opened(ext, p) == Err::<(Format, u64), StorageError>(StorageError::DynamicVhd),
{
}

/// A fixed VHD opens exactly where its footer claims a payload of whole sectors, at
/// least one, that leaves room for the footer.
pub proof fn law_fixed_vhd_opens(ext: Option<Seq<char>>, p: ImageProbe)
    requires
        told_as_vhd(ext, p),
        disk_type(p.footer@) == 2,
    ensures
        detected(ext, p) == Format::VhdFixed,
        ({
            let size = original_size(p.footer@);
            &&& opened(ext, p) is Ok <==> 0 < size <= p.len - SECTOR_SIZE && size % 512 == 0
            &&& opened(ext, p) is Ok ==> opened(ext, p) == Ok::<(Format, u64), StorageError>(
                (Format::VhdFixed, (size / 512) as u64),
            )
        }),
{
}

/// A file that only its extension tells as a VHD is detected as a fixed one, and never
/// opens: it has no footer, or one without the cookie, or one with an unknown disk type.
pub proof fn law_bad_vhd_is_refused(ext: Option<Seq<char>>, p: ImageProbe)
    requires
        name_hint(ext) is Vhd,
        p.len < SECTOR_SIZE || !VHD_FOOTER_COOKIE@.is_prefix_of(p.footer@) || !(2 <= disk_type(
            p.footer@,
        ) <= 4),
    ensures
        detected(ext, p) == Format::VhdFixed,
        opened(ext, p) == Err::<(Format, u64), StorageError>(
            StorageError::Vhd(
                if p.len < SECTOR_SIZE {
                    VhdError::TooSmall
                } else if !VHD_FOOTER_COOKIE@.is_prefix_of(p.footer@) {
                    VhdError::MissingCookie
                } else {
                    VhdError::UnsupportedType { disk_type: disk_type(p.footer@) as u32 }
                },
            ),
        ),
{
}

/// A file that nothing tells as a VHD or a VHDX is a raw image.
pub proof fn law_anything_else_is_raw(ext: Option<Seq<char>>, p: ImageProbe)
    requires
        name_hint(ext) is Unclear,
        !VHDX_HEAD_MAGIC@.is_prefix_of(p.head@),
        p.len < SECTOR_SIZE || !VHD_FOOTER_COOKIE@.is_prefix_of(p.footer@),
    ensures
        detected(ext, p) == Format::Raw,
{
}

/// An extension reads as a word of small letters and digits where it has the same
/// characters, small or capital.
pub proof fn law_extensions_ignore_case(e: Seq<char>, word: Seq<char>)
    requires
        forall|i: int| 0 <= i < word.len() ==> !('A' <= (#[trigger] word[i]) <= 'Z'),
    ensures
        reads_as(e, word) <==> {
            &&& e.len() == word.len()
            &&& forall|i: int|
                0 <= i < e.len() ==> (#[trigger] e[i]) == word[i] || ('a' <= word[i] <= 'z' && e[i]
                    as int + 32 == word[i] as int)
        },
{
    let lower = e.map_values(|c: char| ascii_lower(c));
    if reads_as(e, word) {
        assert forall|i: int| 0 <= i < e.len() implies (#[trigger] e[i]) == word[i] || ('a'
            <= word[i] <= 'z' && e[i] as int + 32 == word[i] as int) by {
            assert(lower[i] == ascii_lower(e[i]));
            assert(lower[i] == word[i]);
        }
    } else if e.len() == word.len() && forall|i: int|
        0 <= i < e.len() ==> (#[trigger] e[i]) == word[i] || ('a' <= word[i] <= 'z' && e[i] as int
            + 32 == word[i] as int) {
        assert forall|i: int| 0 <= i < e.len() implies lower[i] == word[i] by {
            assert(lower[i] == ascii_lower(e[i]));
            assert(e[i] == word[i] || e[i] as int + 32 == word[i] as int);
            if e[i] != word[i] {
                crate::text::lemma_char_by_code(lower[i], word[i]);
            }
        }
        assert(lower =~= word);
    }
}

/// A name hints at a format by its extension alone, in capitals or not.
pub proof fn law_name_hints(e: Seq<char>)
    ensures
        name_hint(None) == NameHint::Unclear,
        name_hint(Some(e)) == NameHint::Known(Format::Raw) <==> reads_as(e, "raw"@) || reads_as(
            e,
            "img"@,
        ) || reads_as(e, "ext4"@),
        name_hint(Some(e)) == NameHint::Vhd <==> reads_as(e, "vhd"@),
        name_hint(Some(e)) == NameHint::Known(Format::Vhdx) <==> reads_as(e, "vhdx"@),
        name_hint(Some(e)) is Known ==> name_hint(Some(e)) == NameHint::Known(Format::Raw)
            || name_hint(Some(e)) == NameHint::Known(Format::Vhdx),
{
    reveal_strlit("raw");
    reveal_strlit("img");
    reveal_strlit("ext4");
    reveal_strlit("vhd");
    reveal_strlit("vhdx");
    let lower = e.map_values(|c: char| ascii_lower(c));
    assert("raw"@[0] != "vhd"@[0] && "raw"@.len() != "vhdx"@.len());
    assert("img"@[0] != "vhd"@[0] && "img"@.len() != "vhdx"@.len());
    assert("ext4"@[0] != "vhdx"@[0] && "ext4"@.len() != "vhd"@.len());
    assert("vhd"@.len() != "vhdx"@.len());
}

/// A VHD footer's disk type is the four bytes at 60 and its payload size the eight bytes at
/// 40, high byte first.
pub proof fn law_footer_bytes(f: Seq<u8>)
    requires
        f.len() == 512,
    ensures
        disk_type(f) == f[63] + 0x100 * f[62] + 0x1_0000 * f[61] + 0x100_0000 * f[60],
        original_size(f) == f[47] + 0x100 * f[46] + 0x1_0000 * f[45] + 0x100_0000 * f[44]
            + 0x1_0000_0000 * f[43] + 0x100_0000_0000 * f[42] + 0x1_0000_0000_0000 * f[41]
            + 0x100_0000_0000_0000 * f[40],
{
    crate::codec::law_big_endian(f.subrange(60, 64));
    crate::codec::law_big_endian(f.subrange(40, 48));
}

/// A sector is transferred exactly where the disk has it and the buffer holds 512 bytes, at
/// 512 times its number. A sector that the disk does not have is told before a wrong buffer.
pub proof fn law_transfers(access: Access, total: u64, sector: u64, len: nat)
    requires
        total * 512 <= u64::MAX,
    ensures
        transfer(access, total, sector, len) matches Ok(at) <==> sector < total && len == 512,
        transfer(access, total, sector, len) matches Ok(at) ==> at == sector * 512,
        sector >= total ==> transfer(access, total, sector, len) == Err::<u64, SectorError>(
            SectorError::OutOfRange { access, sector, total },
        ),
        sector < total && len != 512 ==> transfer(access, total, sector, len) == Err::<
            u64,
            SectorError,
        >(SectorError::BadBuffer { access }),
{
}

/// A raw image has a sector for each 512 bytes, and is refused where it has none or ends in
/// the middle of one.
pub proof fn law_raw_sectors(len: u64)
    ensures
        raw_sectors(len) matches Ok(n) ==> n > 0 && n * 512 == len,
        raw_sectors(len) is Err <==> len == 0 || len % 512 != 0,
        raw_sectors(len) == Err::<u64, RawError>(RawError::Empty) <==> len == 0,
        raw_sectors(len) matches Err(RawError::Misaligned { len: l }) ==> l == len,
{
}

/// What keeps a file from being a fixed VHD is told by the first fault that it has, and a
/// file without one has a sector for each 512 bytes of the payload that its footer claims.
pub proof fn law_vhd_sectors(len: u64, f: Seq<u8>)
    requires
        f.len() == 512,
    ensures
        vhd_sectors(len, f) matches Ok(n) ==> {
            &&& n > 0 && n * 512 == original_size(f)
            &&& n * 512 + 512 <= len
            &&& VHD_FOOTER_COOKIE@.is_prefix_of(f)
            &&& disk_type(f) == 2
        },
        vhd_sectors(len, f) matches Err(e) ==> match e {
            VhdError::TooSmall => len < 512,
            VhdError::MissingCookie => len >= 512 && !VHD_FOOTER_COOKIE@.is_prefix_of(f),
            VhdError::Dynamic => len >= 512 && VHD_FOOTER_COOKIE@.is_prefix_of(f) && disk_type(f)
                == 3,
            VhdError::Differencing => len >= 512 && VHD_FOOTER_COOKIE@.is_prefix_of(f)
                && disk_type(f) == 4,
            VhdError::UnsupportedType { disk_type: t } => len >= 512
                && VHD_FOOTER_COOKIE@.is_prefix_of(f) && t == disk_type(f) && !(2 <= t <= 4),
            VhdError::ZeroSize => len >= 512 && VHD_FOOTER_COOKIE@.is_prefix_of(f) && disk_type(f)
                == 2 && original_size(f) == 0,
            VhdError::Truncated { original_size: o, len: l } => len >= 512
                && VHD_FOOTER_COOKIE@.is_prefix_of(f) && disk_type(f) == 2 && o == original_size(f)
                && o > 0 && l == len && o + 512 > len,
            VhdError::Misaligned { original_size: o } => VHD_FOOTER_COOKIE@.is_prefix_of(f)
                && disk_type(f) == 2 && o == original_size(f) && o > 0 && o + 512 <= len && o % 512
                != 0,
        },
{
    law_footer_bytes(f);
}

/// The cookie and the magic number, byte by byte.
pub proof fn law_magic_numbers(b: Seq<u8>)
    ensures
        VHD_FOOTER_COOKIE@.is_prefix_of(b) <==> b.len() >= 8 && b[0] == 0x63 && b[1] == 0x6f && b[2]
            == 0x6e && b[3] == 0x65 && b[4] == 0x63 && b[5] == 0x74 && b[6] == 0x69 && b[7] == 0x78,
        VHDX_HEAD_MAGIC@.is_prefix_of(b) <==> b.len() >= 8 && b[0] == 0x76 && b[1] == 0x68 && b[2]
            == 0x64 && b[3] == 0x78 && b[4] == 0x66 && b[5] == 0x69 && b[6] == 0x6c && b[7] == 0x65,
{
    if b.len() >= 8 {
        let head = b.subrange(0, 8);
        assert(head[0] == b[0] && head[1] == b[1] && head[2] == b[2] && head[3] == b[3] && head[4]
            == b[4] && head[5] == b[5] && head[6] == b[6] && head[7] == b[7]);
        if b[0] == 0x63 && b[1] == 0x6f && b[2] == 0x6e && b[3] == 0x65 && b[4] == 0x63 && b[5]
            == 0x74 && b[6] == 0x69 && b[7] == 0x78 {
            assert(head =~= VHD_FOOTER_COOKIE@);
        }
        if b[0] == 0x76 && b[1] == 0x68 && b[2] == 0x64 && b[3] == 0x78 && b[4] == 0x66 && b[5]
            == 0x69 && b[6] == 0x6c && b[7] == 0x65 {
            assert(head =~= VHDX_HEAD_MAGIC@);
        }
    }
}

/// An image with a name that does not tell its format is told by its contents: by its head
/// first, then by its footer.
pub proof fn law_detection_by_content(ext: Option<Seq<char>>, p: ImageProbe)
    requires
        name_hint(ext) is Unclear,
    ensures
        detected(ext, p) is Vhdx <==> VHDX_HEAD_MAGIC@.is_prefix_of(p.head@),
        detected(ext, p) is VhdDynamic <==> !VHDX_HEAD_MAGIC@.is_prefix_of(p.head@) && p.len >= 512
            && VHD_FOOTER_COOKIE@.is_prefix_of(p.footer@) && (disk_type(p.footer@) == 3
            || disk_type(p.footer@) == 4),
        detected(ext, p) is VhdFixed <==> !VHDX_HEAD_MAGIC@.is_prefix_of(p.head@) && p.len >= 512
            && VHD_FOOTER_COOKIE@.is_prefix_of(p.footer@) && disk_type(p.footer@) != 3
            && disk_type(p.footer@) != 4,
{
}

/// What opens is what was detected, with the sectors that its format gives it.
pub proof fn law_opening_follows_detection(ext: Option<Seq<char>>, p: ImageProbe)
    ensures
        opened(ext, p) matches Ok(o) ==> o.0 == detected(ext, p) && (o.0 is Raw || o.0 is VhdFixed),
        detected(ext, p) is Raw ==> match raw_sectors(p.len) {
            Ok(n) => opened(ext, p) == Ok::<(Format, u64), StorageError>((Format::Raw, n)),
            Err(e) => opened(ext, p) == Err::<(Format, u64), StorageError>(StorageError::Raw(e)),
        },
        detected(ext, p) is VhdFixed ==> match vhd_sectors(p.len, p.footer@) {
            Ok(n) => opened(ext, p) == Ok::<(Format, u64), StorageError>((Format::VhdFixed, n)),
            Err(e) => opened(ext, p) == Err::<(Format, u64), StorageError>(StorageError::Vhd(e)),
        },
        detected(ext, p) is VhdDynamic ==> opened(ext, p) == Err::<(Format, u64), StorageError>(
            StorageError::DynamicVhd,
        ),
        detected(ext, p) is Vhdx ==> opened(ext, p) == Err::<(Format, u64), StorageError>(
            StorageError::Vhdx,
        ),
{
}

/// A refused transfer is told with the sector's number and the disk's size, in decimal.
pub proof fn law_transfer_messages(sector: u64, total: u64)
    ensures
        (SectorError::OutOfRange { access: Access::Read, sector, total }).text() == "read sector "@
            + decimal(sector as nat) + " out of range ("@ + decimal(total as nat) + " total)"@,
        (SectorError::OutOfRange { access: Access::Write, sector, total }).text()
            == "write sector "@ + decimal(sector as nat) + " out of range ("@ + decimal(
            total as nat,
        ) + " total)"@,
        (SectorError::BadBuffer { access: Access::Read }).text()
            == "read buffer must be 512 bytes"@,
        (SectorError::BadBuffer { access: Access::Write }).text()
            == "write buffer must be 512 bytes"@,
{
    reveal_strlit("read sector ");
    reveal_strlit("write sector ");
    reveal_strlit("read buffer must be 512 bytes");
    reveal_strlit("write buffer must be 512 bytes");
    reveal_strlit("read");
    reveal_strlit("write");
    reveal_strlit(" sector ");
    reveal_strlit(" buffer must be ");
    reveal_strlit(" bytes");
    assert("read"@ + " sector "@ =~= "read sector "@);
    assert("write"@ + " sector "@ =~= "write sector "@);
    lemma_five_hundred_and_twelve();
    assert("read"@ + " buffer must be "@ + decimal(512) + " bytes"@
        =~= "read buffer must be 512 bytes"@);
    assert("write"@ + " buffer must be "@ + decimal(512) + " bytes"@
        =~= "write buffer must be 512 bytes"@);
}

proof fn lemma_five_hundred_and_twelve()
    ensures
        decimal(512) =~= seq!['5', '1', '2'],
{
    reveal_with_fuel(crate::text::numeral, 4);
}

/// A message about an image tells its path, and the numbers that do not fit, in decimal.
pub proof fn law_image_messages(
    path: Seq<char>,
    a: u64,
    b: u64,
    t: u32,
    raw: RawError,
    vhd: VhdError,
)
    ensures
        RawError::Empty.text(path) == path + " is empty"@,
        (RawError::Misaligned { len: a }).text(path) == path + " length "@ + decimal(a as nat)
            + " is not a multiple of 512"@,
        VhdError::TooSmall.text(path) == path + " is too small to be a VHD"@,
        VhdError::MissingCookie.text(path) == path + " is missing the VHD footer cookie"@,
        (VhdError::UnsupportedType { disk_type: t }).text(path) == path
            + " has unsupported VHD disk_type "@ + decimal(t as nat),
        VhdError::ZeroSize.text(path) == path + " reports zero original_size in VHD footer"@,
        (VhdError::Truncated { original_size: a, len: b }).text(path) == path
            + " footer original_size="@ + decimal(a as nat) + " but file length is "@ + decimal(
            b as nat,
        ),
        (VhdError::Misaligned { original_size: a }).text(path) == path + " original_size "@
            + decimal(a as nat) + " not a multiple of 512"@,
        StorageError::Raw(raw).text(path) == raw.text(path),
        StorageError::Vhd(vhd).text(path) == vhd.text(path),
        path.is_prefix_of(StorageError::DynamicVhd.text(path)),
        path.is_prefix_of(StorageError::Vhdx.text(path)),
        path.is_prefix_of(VhdError::Dynamic.text(path)),
        path.is_prefix_of(VhdError::Differencing.text(path)),
{
    reveal_strlit(" is not a multiple of 512");
    reveal_strlit(" is not a multiple of ");
    reveal_strlit(" not a multiple of 512");
    reveal_strlit(" not a multiple of ");
    lemma_five_hundred_and_twelve();
    let head = path + " length "@ + decimal(a as nat);
    assert(head + " is not a multiple of "@ + decimal(512) =~= head
        + " is not a multiple of 512"@);
    let head = path + " original_size "@ + decimal(a as nat);
    assert(head + " not a multiple of "@ + decimal(512) =~= head + " not a multiple of 512"@);
    assert(StorageError::DynamicVhd.text(path).subrange(0, path.len() as int) =~= path);
    assert(StorageError::Vhdx.text(path).subrange(0, path.len() as int) =~= path);
    assert(VhdError::Dynamic.text(path).subrange(0, path.len() as int) =~= path);
    assert(VhdError::Differencing.text(path).subrange(0, path.len() as int) =~= path);
}

/// A name's extension is taken as it stands, and is missing only where the name has none.
pub proof fn law_extension(e: &str)
    ensures
        extension(None) is None,
        extension(Some(e)) == Some(e@),
{
}

/// A name that tells the format settles it, whatever the image holds. A name that tells a
/// VHD leaves it to the footer whether it is a dynamic one.
pub proof fn law_detection_by_name(ext: Option<Seq<char>>, p: ImageProbe)
    ensures
        name_hint(ext) matches NameHint::Known(f) ==> detected(ext, p) == f,
        name_hint(ext) is Vhd ==> {
            &&& detected(ext, p) is VhdDynamic || detected(ext, p) is VhdFixed
            &&& detected(ext, p) is VhdDynamic <==> p.len >= 512 && VHD_FOOTER_COOKIE@.is_prefix_of(
                p.footer@,
            ) && (disk_type(p.footer@) == 3 || disk_type(p.footer@) == 4)
        },
{
}

} // verus!
