//! The fixed ten-word blob header: magic, sizes and block offsets.

use vstd::prelude::*;
use crate::bytes::{be32, read_be32};
use crate::FdtError;

verus! {

broadcast use vstd::slice::group_slice_axioms;

/// The FDT magic number, stored big-endian in the first header word.
pub const FDT_MAGIC: u32 = 0xd00dfeed;

/// The format version this parser understands.
pub const FDT_VERSION: u32 = 17;

/// The ten header fields, each read as a big-endian 32-bit word.
#[derive(Clone, Copy, Debug, PartialEq, Eq, Structural)]
pub struct FdtHeader {
    pub magic: u32,
    pub totalsize: u32,
    pub off_dt_struct: u32,
    pub off_dt_strings: u32,
    pub off_mem_rsvmap: u32,
    pub version: u32,
    pub last_comp_version: u32,
    pub boot_cpuid_phys: u32,
    pub size_dt_strings: u32,
    pub size_dt_struct: u32,
}

/// The header fields as they stand in the first 40 bytes of `b`.
pub open spec fn spec_header(b: Seq<u8>) -> FdtHeader {
    FdtHeader {
        magic: be32(b, 0) as u32,
        totalsize: be32(b, 4) as u32,
        off_dt_struct: be32(b, 8) as u32,
        off_dt_strings: be32(b, 12) as u32,
        off_mem_rsvmap: be32(b, 16) as u32,
        version: be32(b, 20) as u32,
        last_comp_version: be32(b, 24) as u32,
        boot_cpuid_phys: be32(b, 28) as u32,
        size_dt_strings: be32(b, 32) as u32,
        size_dt_struct: be32(b, 36) as u32,
    }
}

/// A header whose magic, version and block bounds all check out against `b`.
pub open spec fn header_wf(h: FdtHeader, b: Seq<u8>) -> bool {
    &&& b.len() >= 40
    &&& h == spec_header(b)
    &&& h.magic == FDT_MAGIC
    &&& h.version >= FDT_VERSION
    &&& h.last_comp_version <= FDT_VERSION
    &&& h.totalsize <= b.len()
    &&& h.off_dt_struct + h.size_dt_struct <= h.totalsize
    &&& h.off_dt_strings + h.size_dt_strings <= h.totalsize
    &&& h.off_mem_rsvmap <= h.totalsize
}

/// The error with which header validation rejects `b`, if any:
/// truncation, then magic, then version, then block bounds.
pub open spec fn spec_header_err(b: Seq<u8>) -> Option<FdtError> {
    if b.len() < 4 {
        Some(FdtError::TruncatedRecord)
    } else if be32(b, 0) != FDT_MAGIC {
        Some(FdtError::InvalidMagic)
    } else if b.len() < 40 {
        Some(FdtError::TruncatedRecord)
    } else if be32(b, 20) < FDT_VERSION || be32(b, 24) > FDT_VERSION {
        Some(FdtError::UnsupportedVersion)
    } else if be32(b, 4) > b.len()
        || be32(b, 8) + be32(b, 36) > be32(b, 4)
        || be32(b, 12) + be32(b, 32) > be32(b, 4)
        || be32(b, 16) > be32(b, 4) {
        Some(FdtError::OutOfBounds)
    } else {
        None
    }
}

/// A buffer long enough to hold a first word that is not the magic number
/// is rejected as InvalidMagic, whatever else it holds.
pub proof fn lemma_wrong_magic_rejected(b: Seq<u8>)
    requires
        b.len() >= 4,
        be32(b, 0) != FDT_MAGIC,
    ensures
        spec_header_err(b) == Some(FdtError::InvalidMagic),
{
}

/// Reads and validates the header at the front of `b`: the magic number,
/// the version pair, and that every block the header names lies inside the
/// declared total size, which itself must lie inside `b`.
pub fn parse_header(b: &[u8]) -> (r: Result<FdtHeader, FdtError>)
    ensures
        match r {
            Ok(h) => spec_header_err(b@) is None && header_wf(h, b@),
            Err(e) => spec_header_err(b@) == Some(e),
        },
{
    let n = b.len();
    if n < 4 {
        return Err(FdtError::TruncatedRecord);
    }
    let magic = read_be32(b, 0);
    if magic != FDT_MAGIC {
        return Err(FdtError::InvalidMagic);
    }
    if n < 40 {
        return Err(FdtError::TruncatedRecord);
    }
    let version = read_be32(b, 20);
    let last_comp_version = read_be32(b, 24);
    if version < FDT_VERSION || last_comp_version > FDT_VERSION {
        return Err(FdtError::UnsupportedVersion);
    }
    let totalsize = read_be32(b, 4);
    let off_dt_struct = read_be32(b, 8);
    let off_dt_strings = read_be32(b, 12);
    let off_mem_rsvmap = read_be32(b, 16);
    let size_dt_strings = read_be32(b, 32);
    let size_dt_struct = read_be32(b, 36);
    if totalsize as usize > n
        || off_dt_struct as u64 + size_dt_struct as u64 > totalsize as u64
        || off_dt_strings as u64 + size_dt_strings as u64 > totalsize as u64
        || off_mem_rsvmap > totalsize {
        return Err(FdtError::OutOfBounds);
    }
    Ok(FdtHeader {
        magic,
        totalsize,
        off_dt_struct,
        off_dt_strings,
        off_mem_rsvmap,
        version,
        last_comp_version,
        boot_cpuid_phys: read_be32(b, 28),
        size_dt_strings,
        size_dt_struct,
    })
}

} // verus!
