//! Zero-copy parser for flattened device tree (FDT/DTB) blobs.
//!
//! A blob is a single borrowed byte buffer; the header records where the
//! memory-reservation block, the structure block and the strings block lie
//! inside it.  Every view handed out (reservations, tokens, nodes,
//! properties) is driven by a cheaply copyable cursor into that buffer.

use vstd::prelude::*;

pub mod bytes;
pub mod fdt;
pub mod header;
pub mod resv;
pub mod token;
pub mod tree;
pub mod utf8;

pub use fdt::Fdt;
pub use header::FdtHeader;
pub use resv::{MemoryReservation, MemoryReservations};
pub use token::{StructItem, StructItemIter};
pub use tree::{Children, FdtNode, Properties, Property};

verus! {

/// Why a blob, a block or a record was rejected.
#[derive(Clone, Copy, Debug, PartialEq, Eq, Structural)]
pub enum FdtError {
    /// The first header word is not the FDT magic number.
    InvalidMagic,
    /// The format version is below 17 or the lowest-compatible version is above 17.
    UnsupportedVersion,
    /// An offset or size claims bytes beyond the blob.
    OutOfBounds,
    /// A struct-block tag is not one of the five known tags, or bytes trail the end tag.
    MalformedToken,
    /// A declared length exceeds the remaining bytes of its block.
    TruncatedRecord,
    /// A name is not NUL-terminated or is not well-formed UTF-8.
    InvalidText,
}

/// Rounds `value` up to the next multiple of `align`.
pub open spec fn spec_align_up(value: int, align: int) -> int {
    if value % align == 0 {
        value
    } else {
        value + (align - value % align)
    }
}

/// Rounds a byte length up to the next `align`-byte boundary.
pub fn align_up(value: usize, align: usize) -> (r: usize)
    requires
        align >= 1,
        value + align <= usize::MAX,
    ensures
        r == spec_align_up(value as int, align as int),
        value <= r < value + align,
{
    let rem = value % align;
    if rem == 0 {
        value
    } else {
        value + (align - rem)
    }
}

} // verus!
