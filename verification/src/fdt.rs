//! The top-level parser handle: one validated header over one borrowed
//! blob, from which every view re-slices its own block.

use vstd::prelude::*;
use vstd::slice::slice_subrange;
use crate::header::{FdtHeader, header_wf, parse_header, spec_header, spec_header_err};
use crate::resv::MemoryReservations;
use crate::token::{step, Step, StructItem, StructItemIter};
use crate::tree::FdtNode;
use crate::FdtError;

verus! {

broadcast use vstd::slice::group_slice_axioms;

/// A parsed blob: the validated header and the borrowed buffer it came
/// from. All navigation borrows from `data`; nothing is copied up front.
pub struct Fdt<'a> {
    pub header: FdtHeader,
    pub data: &'a [u8],
}

impl<'a> Fdt<'a> {
    /// The header was validated against this very buffer.
    pub open spec fn wf(self) -> bool {
        header_wf(self.header, self.data@)
    }

    /// The structure block the header names.
    pub open spec fn struct_block(self) -> Seq<u8> {
        self.data@.subrange(
            self.header.off_dt_struct as int,
            self.header.off_dt_struct + self.header.size_dt_struct,
        )
    }

    /// The strings block the header names.
    pub open spec fn strings_block(self) -> Seq<u8> {
        self.data@.subrange(
            self.header.off_dt_strings as int,
            self.header.off_dt_strings + self.header.size_dt_strings,
        )
    }

    /// The bytes from the memory-reservation block to the end of the blob.
    pub open spec fn resv_block(self) -> Seq<u8> {
        self.data@.subrange(self.header.off_mem_rsvmap as int, self.header.totalsize as int)
    }

    /// Validates the header at the front of `data` and takes the whole
    /// buffer as the blob every later view reads. Rejects a bad magic
    /// number, an unsupported version pair, and any block lying outside
    /// the declared total size or a total size beyond the buffer.
    pub fn from_bytes(data: &'a [u8]) -> (r: Result<Self, FdtError>)
        ensures
            match r {
                Ok(f) => {
                    &&& spec_header_err(data@) is None
                    &&& f.data@ == data@
                    &&& f.header == spec_header(data@)
                    &&& f.wf()
                },
                Err(e) => spec_header_err(data@) == Some(e),
            },
    {
        let header = match parse_header(data) {
            Ok(h) => h,
            Err(e) => {
                return Err(e);
            },
        };
        Ok(Fdt { header, data })
    }

    /// A fresh cursor over the memory-reservation block.
    pub fn memory_reservations(&self) -> (r: MemoryReservations<'a>)
        requires
            self.wf(),
        ensures
            r.wf(),
            r.pos == 0,
            r.data@ == self.resv_block(),
    {
        MemoryReservations {
            data: slice_subrange(
                self.data,
                self.header.off_mem_rsvmap as usize,
                self.header.totalsize as usize,
            ),
            pos: 0,
        }
    }

    /// A fresh tokenizer cursor at the start of the structure block.
    pub fn struct_items(&self) -> (r: StructItemIter<'a>)
        requires
            self.wf(),
        ensures
            r.wf(),
            r.pos == 0,
            r.st@ == self.struct_block(),
            r.strs@ == self.strings_block(),
    {
        let off_struct = self.header.off_dt_struct as usize;
        let off_strings = self.header.off_dt_strings as usize;
        StructItemIter {
            st: slice_subrange(self.data, off_struct, off_struct + self.header.size_dt_struct as usize),
            strs: slice_subrange(
                self.data,
                off_strings,
                off_strings + self.header.size_dt_strings as usize,
            ),
            pos: 0,
        }
    }

    /// The root node: the first token of the structure block must be a
    /// begin-node token, and the node's cursor is saved just after it.
    pub fn root_node(&self) -> (r: Result<FdtNode<'a>, FdtError>)
        requires
            self.wf(),
        ensures
            match step(self.struct_block(), self.strings_block(), 0) {
                Step::Begin { name, next } => {
                    &&& r matches Ok(node) && node.name@ == name
                    &&& r matches Ok(node) && node.iter.st@ == self.struct_block()
                        && node.iter.strs@ == self.strings_block()
                        && node.iter.pos == next && node.wf()
                },
                Step::Fail { err } => r == Err::<FdtNode<'a>, FdtError>(err),
                _ => r == Err::<FdtNode<'a>, FdtError>(FdtError::MalformedToken),
            },
    {
        let mut iter = self.struct_items();
        match iter.next() {
            Ok(Some(StructItem::BeginNode { name })) => Ok(FdtNode { name, iter }),
            Ok(_) => Err(FdtError::MalformedToken),
            Err(e) => Err(e),
        }
    }
}

} // verus!
