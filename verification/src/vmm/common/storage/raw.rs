//! Flat image files: the payload is the whole file.

use vstd::prelude::*;

use crate::text::{append_decimal, decimal};
use crate::vmm::common::ram::Access;
use crate::vmm::common::storage::{locate, BlockBackend, SectorError, SECTOR_SIZE};

verus! {

/// Why a file is no raw image.
#[derive(Debug, Clone, Copy, PartialEq, Eq, Structural)]
pub enum RawError {
    /// The file is empty.
    Empty,
    /// The file does not hold whole sectors.
    Misaligned { len: u64 },
}

impl RawError {
    /// The text that reports the error for the image at `path`.
    pub open spec fn text(self, path: Seq<char>) -> Seq<char> {
        match self {
            RawError::Empty => path + " is empty"@,
            RawError::Misaligned { len } => path + " length "@ + decimal(len as nat)
                + " is not a multiple of "@ + decimal(512),
        }
    }

    /// Reports the error in words, for the image at `path`.
    pub fn message(&self, path: &str) -> (s: String)
        ensures
            s@ == self.text(path@),
    {
        let mut s = String::from_str(path);
        match *self {
            RawError::Empty => {
                s.append(" is empty");
            },
            RawError::Misaligned { len } => {
                s.append(" length ");
                append_decimal(&mut s, len);
                s.append(" is not a multiple of ");
                append_decimal(&mut s, SECTOR_SIZE);
            },
        }
        s
    }
}

/// The number of sectors of a raw image of `len` bytes.
pub open spec fn raw_sectors(len: u64) -> Result<u64, RawError> {
    if len == 0 {
        Err(RawError::Empty)
    } else if len % SECTOR_SIZE != 0 {
        Err(RawError::Misaligned { len })
    } else {
        Ok(len / SECTOR_SIZE)
    }
}

/// A raw image.
#[derive(Debug)]
pub struct RawBackend {
    sectors: u64,
}

impl RawBackend {
    #[verifier::type_invariant]
    spec fn inv(self) -> bool {
        self.sectors * SECTOR_SIZE <= u64::MAX
    }

    /// Takes a file of `len` bytes as a raw image.
    pub fn open(len: u64) -> (r: Result<Self, RawError>)
        ensures
            match r {
                Ok(b) => raw_sectors(len) == Ok::<u64, RawError>(b.sectors()),
                Err(e) => raw_sectors(len) == Err::<u64, RawError>(e),
            },
    {
        if len == 0 {
            return Err(RawError::Empty);
        }
        if len % SECTOR_SIZE != 0 {
            return Err(RawError::Misaligned { len });
        }
        Ok(RawBackend { sectors: len / SECTOR_SIZE })
    }
}

impl BlockBackend for RawBackend {
    closed spec fn sectors(&self) -> u64 {
        self.sectors
    }

    fn sector_count(&self) -> (n: u64) {
        self.sectors
    }

    fn read_sector(&self, sector: u64, len: usize) -> (r: Result<u64, SectorError>) {
        proof {
            use_type_invariant(self);
        }
        locate(Access::Read, self.sectors, sector, len)
    }

    fn write_sector(&self, sector: u64, len: usize) -> (r: Result<u64, SectorError>) {
        proof {
            use_type_invariant(self);
        }
        locate(Access::Write, self.sectors, sector, len)
    }
}

} // verus!
