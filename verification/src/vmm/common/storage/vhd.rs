//! Fixed VHD image files: the payload, and a footer of one sector behind it.

use vstd::prelude::*;

use crate::codec::{lemma_pow256_values, read_be, starts_with};
use crate::text::{append_decimal, decimal};
use crate::vmm::common::ram::Access;
use crate::vmm::common::storage::{
    disk_type, locate, original_size, BlockBackend, ImageProbe, SectorError, SECTOR_SIZE,
    VHD_FOOTER_COOKIE,
};

verus! {

pub const FOOTER_LEN: u64 = 512;

pub const DISK_TYPE_FIXED: u32 = 2;

pub const DISK_TYPE_DYNAMIC: u32 = 3;

pub const DISK_TYPE_DIFFERENCING: u32 = 4;

/// Why a file is no fixed VHD.
#[derive(Debug, Clone, Copy, PartialEq, Eq, Structural)]
pub enum VhdError {
    /// The file has no room for a footer.
    TooSmall,
    /// The footer does not begin with the cookie.
    MissingCookie,
    /// A dynamic VHD.
    Dynamic,
    /// A differencing VHD.
    Differencing,
    /// A disk type that is none of those.
    UnsupportedType { disk_type: u32 },
    /// The footer claims an empty payload.
    ZeroSize,
    /// The footer claims a payload that the file has no room for.
    Truncated { original_size: u64, len: u64 },
    /// The payload does not hold whole sectors.
    Misaligned { original_size: u64 },
}

impl VhdError {
    /// The text that reports the error for the image at `path`.
    pub open spec fn text(self, path: Seq<char>) -> Seq<char> {
        match self {
            VhdError::TooSmall => path + " is too small to be a VHD"@,
            VhdError::MissingCookie => path + " is missing the VHD footer cookie"@,
            VhdError::Dynamic => path
                + " is a dynamic VHD; only fixed VHDs are supported by this backend"@,
            VhdError::Differencing => path
                + " is a differencing VHD; only fixed VHDs are supported by this backend"@,
            VhdError::UnsupportedType { disk_type } => path + " has unsupported VHD disk_type "@
                + decimal(disk_type as nat),
            VhdError::ZeroSize => path + " reports zero original_size in VHD footer"@,
            VhdError::Truncated { original_size, len } => path + " footer original_size="@
                + decimal(original_size as nat) + " but file length is "@ + decimal(len as nat),
            VhdError::Misaligned { original_size } => path + " original_size "@ + decimal(
                original_size as nat,
            ) + " not a multiple of "@ + decimal(512),
        }
    }

    /// Reports the error in words, for the image at `path`.
    pub fn message(&self, path: &str) -> (s: String)
        ensures
            s@ == self.text(path@),
    {
        let mut s = String::from_str(path);
        match *self {
            VhdError::TooSmall => {
                s.append(" is too small to be a VHD");
            },
            VhdError::MissingCookie => {
                s.append(" is missing the VHD footer cookie");
            },
            VhdError::Dynamic => {
                s.append(" is a dynamic VHD; only fixed VHDs are supported by this backend");
            },
            VhdError::Differencing => {
                s.append(" is a differencing VHD; only fixed VHDs are supported by this backend");
            },
            VhdError::UnsupportedType { disk_type } => {
                s.append(" has unsupported VHD disk_type ");
                append_decimal(&mut s, disk_type as u64);
            },
            VhdError::ZeroSize => {
                s.append(" reports zero original_size in VHD footer");
            },
            VhdError::Truncated { original_size, len } => {
                s.append(" footer original_size=");
                append_decimal(&mut s, original_size);
                s.append(" but file length is ");
                append_decimal(&mut s, len);
            },
            VhdError::Misaligned { original_size } => {
                s.append(" original_size ");
                append_decimal(&mut s, original_size);
                s.append(" not a multiple of ");
                append_decimal(&mut s, SECTOR_SIZE);
            },
        }
        s
    }
}

/// The number of sectors of a fixed VHD of `len` bytes with `footer` at its end.
pub open spec fn vhd_sectors(len: u64, footer: Seq<u8>) -> Result<u64, VhdError> {
    let kind = disk_type(footer);
    let size = original_size(footer);
    if len < FOOTER_LEN {
        Err(VhdError::TooSmall)
    } else if !VHD_FOOTER_COOKIE@.is_prefix_of(footer) {
        Err(VhdError::MissingCookie)
    } else if kind == DISK_TYPE_DYNAMIC {
        Err(VhdError::Dynamic)
    } else if kind == DISK_TYPE_DIFFERENCING {
        Err(VhdError::Differencing)
    } else if kind != DISK_TYPE_FIXED {
        Err(VhdError::UnsupportedType { disk_type: kind as u32 })
    } else if size == 0 {
        Err(VhdError::ZeroSize)
    } else if size + FOOTER_LEN > len {
        Err(VhdError::Truncated { original_size: size as u64, len })
    } else if size % 512 != 0 {
        Err(VhdError::Misaligned { original_size: size as u64 })
    } else {
        Ok((size / 512) as u64)
    }
}

/// A fixed VHD.
#[derive(Debug)]
pub struct VhdFixedBackend {
    sectors: u64,
}

impl VhdFixedBackend {
    #[verifier::type_invariant]
    spec fn inv(self) -> bool {
        self.sectors * SECTOR_SIZE <= u64::MAX
    }

    /// Takes a file as a fixed VHD.
    pub fn open(probe: &ImageProbe) -> (r: Result<Self, VhdError>)
        ensures
            match r {
                Ok(b) => vhd_sectors(probe.len, probe.footer@) == Ok::<u64, VhdError>(b.sectors()),
                Err(e) => vhd_sectors(probe.len, probe.footer@) == Err::<u64, VhdError>(e),
            },
    {
        let len: u64 = probe.len;
        if len < FOOTER_LEN {
            return Err(VhdError::TooSmall);
        }
        if !starts_with(probe.footer.as_slice(), VHD_FOOTER_COOKIE.as_slice()) {
            return Err(VhdError::MissingCookie);
        }
        proof {
            lemma_pow256_values();
        }
        let disk_type: u32 = read_be(probe.footer.as_slice(), 60, 4) as u32;
        if disk_type == DISK_TYPE_DYNAMIC {
            return Err(VhdError::Dynamic);
        }
        if disk_type == DISK_TYPE_DIFFERENCING {
            return Err(VhdError::Differencing);
        }
        if disk_type != DISK_TYPE_FIXED {
            return Err(VhdError::UnsupportedType { disk_type });
        }
        let original_size: u64 = read_be(probe.footer.as_slice(), 40, 8);
        if original_size == 0 {
            return Err(VhdError::ZeroSize);
        }
        if original_size > len - FOOTER_LEN {
            return Err(VhdError::Truncated { original_size, len });
        }
        if original_size % SECTOR_SIZE != 0 {
            return Err(VhdError::Misaligned { original_size });
        }
        Ok(VhdFixedBackend { sectors: original_size / SECTOR_SIZE })
    }
}

impl BlockBackend for VhdFixedBackend {
    closed spec fn sectors(&self) -> u64 {
        self.sectors
    }

    fn sector_count(&self) -> (n: u64) {
        self.sectors
    }

    fn read_sector(&self, sector: u64, len: usize) -> (r: Result<u64, SectorError>) {
        proof {
            use_type_invariant(self);
        }
        locate(Access::Read, self.sectors, sector, len)
    }

    fn write_sector(&self, sector: u64, len: usize) -> (r: Result<u64, SectorError>) {
        proof {
            use_type_invariant(self);
        }
        locate(Access::Write, self.sectors, sector, len)
    }
}

} // verus!
