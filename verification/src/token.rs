//! The struct-block tokenizer: a cursor over the structure block that emits
//! node-begin, node-end and property tokens, resolving property names
//! through the strings block.

use vstd::prelude::*;
use crate::bytes::{be32, nul_at, read_be32, find_nul, copy_range};
use crate::utf8::{is_utf8, is_valid_utf8};
use crate::{align_up, spec_align_up, FdtError};

verus! {

broadcast use vstd::slice::group_slice_axioms;

pub const FDT_BEGIN_NODE: u32 = 0x1;
pub const FDT_END_NODE: u32 = 0x2;
pub const FDT_PROP: u32 = 0x3;
pub const FDT_NOP: u32 = 0x4;
pub const FDT_END: u32 = 0x9;

/// One decoded unit of the struct block. Names and property values are
/// copied out of the blob; a name excludes its NUL terminator.
#[derive(Debug, PartialEq, Eq)]
pub enum StructItem {
    BeginNode { name: Vec<u8> },
    EndNode,
    Prop { name: Vec<u8>, value: Vec<u8> },
}

/// One raw record of the struct block at position `pos`: a token, a no-op
/// word, the end word, exhaustion, or a format violation. `next` is the
/// position after the record, its aligned length away from `pos`.
pub enum RawStep {
    Begin { name: Seq<u8>, next: int },
    End { next: int },
    Prop { name: Seq<u8>, value: Seq<u8>, next: int },
    Nop { next: int },
    EndTag { next: int },
    Exhausted,
    Fail { err: FdtError },
}

/// Decodes the raw record of `st` at `pos`, resolving property names in
/// `strs`. This is the one place the binary format is stated.
pub open spec fn raw_step(st: Seq<u8>, strs: Seq<u8>, pos: int) -> RawStep {
    if pos == st.len() {
        RawStep::Exhausted
    } else if pos + 4 > st.len() {
        RawStep::Fail { err: FdtError::TruncatedRecord }
    } else {
        let tag = be32(st, pos);
        if tag == FDT_BEGIN_NODE {
            let nul = nul_at(st, pos + 4);
            if nul < 0 {
                RawStep::Fail { err: FdtError::InvalidText }
            } else {
                let name = st.subrange(pos + 4, nul);
                let next = pos + 4 + spec_align_up(nul - (pos + 4) + 1, 4);
                if next > st.len() {
                    RawStep::Fail { err: FdtError::TruncatedRecord }
                } else if !is_utf8(name) {
                    RawStep::Fail { err: FdtError::InvalidText }
                } else {
                    RawStep::Begin { name, next }
                }
            }
        } else if tag == FDT_END_NODE {
            RawStep::End { next: pos + 4 }
        } else if tag == FDT_PROP {
            if pos + 12 > st.len() {
                RawStep::Fail { err: FdtError::TruncatedRecord }
            } else {
                let len = be32(st, pos + 4);
                let nameoff = be32(st, pos + 8);
                let next = pos + 12 + spec_align_up(len, 4);
                if pos + 12 + len > st.len() || next > st.len() {
                    RawStep::Fail { err: FdtError::TruncatedRecord }
                } else if nameoff > strs.len() {
                    RawStep::Fail { err: FdtError::OutOfBounds }
                } else {
                    let nul = nul_at(strs, nameoff);
                    if nul < 0 {
                        RawStep::Fail { err: FdtError::InvalidText }
                    } else {
                        let name = strs.subrange(nameoff, nul);
                        if !is_utf8(name) {
                            RawStep::Fail { err: FdtError::InvalidText }
                        } else {
                            RawStep::Prop { name, value: st.subrange(pos + 12, pos + 12 + len), next }
                        }
                    }
                }
            }
        } else if tag == FDT_NOP {
            RawStep::Nop { next: pos + 4 }
        } else if tag == FDT_END {
            if pos + 4 == st.len() {
                RawStep::EndTag { next: pos + 4 }
            } else {
                RawStep::Fail { err: FdtError::MalformedToken }
            }
        } else {
            RawStep::Fail { err: FdtError::MalformedToken }
        }
    }
}

/// The next emitted token at or after `pos`: `raw_step` with no-op words
/// skipped and both ends of the stream folded into `Done`.
pub enum Step {
    Begin { name: Seq<u8>, next: int },
    End { next: int },
    Prop { name: Seq<u8>, value: Seq<u8>, next: int },
    Done,
    Fail { err: FdtError },
}

pub open spec fn step(st: Seq<u8>, strs: Seq<u8>, pos: int) -> Step
    decreases st.len() - pos when 0 <= pos <= st.len()
{
    match raw_step(st, strs, pos) {
        RawStep::Begin { name, next } => Step::Begin { name, next },
        RawStep::End { next } => Step::End { next },
        RawStep::Prop { name, value, next } => Step::Prop { name, value, next },
        RawStep::Nop { next } => step(st, strs, next),
        RawStep::EndTag { next: _ } => Step::Done,
        RawStep::Exhausted => Step::Done,
        RawStep::Fail { err } => Step::Fail { err },
    }
}

/// Every raw record lies inside the block: its end does not pass `st.len()`.
pub proof fn lemma_raw_step_bounds(st: Seq<u8>, strs: Seq<u8>, pos: int)
    requires
        0 <= pos <= st.len(),
    ensures
        match raw_step(st, strs, pos) {
            RawStep::Begin { next, .. } => pos + 8 <= next <= st.len(),
            RawStep::End { next } => next == pos + 4 <= st.len(),
            RawStep::Prop { next, .. } => pos + 12 <= next <= st.len(),
            RawStep::Nop { next } => next == pos + 4 <= st.len(),
            RawStep::EndTag { next } => next == pos + 4 == st.len(),
            _ => true,
        },
{
    if pos + 4 <= st.len() {
        crate::bytes::lemma_nul_at_range(st, pos + 4);
        if pos + 12 <= st.len() && 0 <= be32(st, pos + 8) <= strs.len() {
            crate::bytes::lemma_nul_at_range(strs, be32(st, pos + 8));
        }
    }
}

/// Every emitted token ends inside the block, strictly after its start.
pub proof fn lemma_step_bounds(st: Seq<u8>, strs: Seq<u8>, pos: int)
    requires
        0 <= pos <= st.len(),
    ensures
        match step(st, strs, pos) {
            Step::Begin { next, .. } => pos + 8 <= next <= st.len(),
            Step::End { next } => pos + 4 <= next <= st.len(),
            Step::Prop { next, .. } => pos + 12 <= next <= st.len(),
            _ => true,
        },
    decreases st.len() - pos,
{
    lemma_raw_step_bounds(st, strs, pos);
    match raw_step(st, strs, pos) {
        RawStep::Nop { next } => lemma_step_bounds(st, strs, next),
        _ => {},
    }
}

/// Whether a raw scan from `pos` runs to the end of the block without a
/// format violation.
pub open spec fn scan_ok(st: Seq<u8>, strs: Seq<u8>, pos: int) -> bool
    decreases st.len() - pos when 0 <= pos <= st.len() via scan_ok_dec
{
    match raw_step(st, strs, pos) {
        RawStep::Begin { name: _, next } => scan_ok(st, strs, next),
        RawStep::End { next } => scan_ok(st, strs, next),
        RawStep::Prop { name: _, value: _, next } => scan_ok(st, strs, next),
        RawStep::Nop { next } => scan_ok(st, strs, next),
        RawStep::EndTag { next: _ } => true,
        RawStep::Exhausted => true,
        RawStep::Fail { err: _ } => false,
    }
}

#[via_fn]
proof fn scan_ok_dec(st: Seq<u8>, strs: Seq<u8>, pos: int) {
    lemma_raw_step_bounds(st, strs, pos);
}

/// Total bytes consumed by a scan from `pos`: the aligned length of every
/// record read, each no-op word and the final end word included.
pub open spec fn consumed(st: Seq<u8>, strs: Seq<u8>, pos: int) -> int
    decreases st.len() - pos when 0 <= pos <= st.len() via consumed_dec
{
    match raw_step(st, strs, pos) {
        RawStep::Begin { name: _, next } => (next - pos) + consumed(st, strs, next),
        RawStep::End { next } => (next - pos) + consumed(st, strs, next),
        RawStep::Prop { name: _, value: _, next } => (next - pos) + consumed(st, strs, next),
        RawStep::Nop { next } => (next - pos) + consumed(st, strs, next),
        RawStep::EndTag { next } => next - pos,
        RawStep::Exhausted => 0,
        RawStep::Fail { err: _ } => 0,
    }
}

#[via_fn]
proof fn consumed_dec(st: Seq<u8>, strs: Seq<u8>, pos: int) {
    lemma_raw_step_bounds(st, strs, pos);
}

/// The aligned record lengths tile the struct block exactly: a scan that
/// completes consumes every byte from `pos` to the end of the block.
pub proof fn lemma_tokens_consume_block(st: Seq<u8>, strs: Seq<u8>, pos: int)
    requires
        0 <= pos <= st.len(),
        scan_ok(st, strs, pos),
    ensures
        pos + consumed(st, strs, pos) == st.len(),
    decreases st.len() - pos,
{
    lemma_raw_step_bounds(st, strs, pos);
    match raw_step(st, strs, pos) {
        RawStep::Begin { name: _, next } => lemma_tokens_consume_block(st, strs, next),
        RawStep::End { next } => lemma_tokens_consume_block(st, strs, next),
        RawStep::Prop { name: _, value: _, next } => lemma_tokens_consume_block(st, strs, next),
        RawStep::Nop { next } => lemma_tokens_consume_block(st, strs, next),
        _ => {},
    }
}

/// A cursor into the struct block. `st` and `strs` are the struct and
/// strings blocks themselves; `pos` is how far tokenization has advanced.
/// Copying the cursor is O(1) and yields an independent scan.
#[derive(Clone, Copy)]
pub struct StructItemIter<'a> {
    pub st: &'a [u8],
    pub strs: &'a [u8],
    pub pos: usize,
}

impl<'a> StructItemIter<'a> {
    /// The cursor points at or before the end of its struct block.
    pub open spec fn wf(self) -> bool {
        self.pos <= self.st@.len()
    }

    /// Both cursors read the same two blocks.
    pub open spec fn same_blocks(self, other: Self) -> bool {
        self.st@ == other.st@ && self.strs@ == other.strs@
    }

    /// What one call of `next` leaves behind and returns, stated over
    /// the token model at the cursor's old position.
    pub open spec fn next_post(self, new: Self, r: Result<Option<StructItem>, FdtError>) -> bool {
        &&& new.wf()
        &&& self.same_blocks(new)
        &&& self.pos <= new.pos
        &&& match step(self.st@, self.strs@, self.pos as int) {
            Step::Begin { name, next } => {
                &&& r matches Ok(Some(StructItem::BeginNode { name: n })) && n@ == name
                &&& new.pos == next
            },
            Step::End { next } => {
                &&& r == Ok::<_, FdtError>(Some(StructItem::EndNode))
                &&& new.pos == next
            },
            Step::Prop { name, value, next } => {
                &&& r matches Ok(Some(StructItem::Prop { name: n, value: v }))
                    && n@ == name && v@ == value
                &&& new.pos == next
            },
            Step::Done => r == Ok::<Option<StructItem>, FdtError>(None)
                && new.pos == new.st@.len(),
            Step::Fail { err } => r == Err::<Option<StructItem>, FdtError>(err)
                && step(new.st@, new.strs@, new.pos as int) == Step::Fail { err },
        }
    }

    /// Decodes the next token, advancing the cursor past it and past any
    /// no-op words before it. At the end word, or once the block is
    /// exhausted, yields `Ok(None)` with the cursor at the block's end.
    pub fn next(&mut self) -> (r: Result<Option<StructItem>, FdtError>)
        requires
            old(self).wf(),
        ensures
            old(self).next_post(*final(self), r),
    {
        let n = self.st.len();
        loop
            invariant
                self.wf(),
                self.st@ == old(self).st@,
                self.strs@ == old(self).strs@,
                n == self.st@.len(),
                old(self).pos <= self.pos,
                step(self.st@, self.strs@, old(self).pos as int)
                    == step(self.st@, self.strs@, self.pos as int),
            decreases n - self.pos,
        {
            let pos = self.pos;
            if pos == n {
                return Ok(None);
            }
            let rem = n - pos;
            if rem < 4 {
                return Err(FdtError::TruncatedRecord);
            }
            let tag = read_be32(self.st, pos);
            if tag == FDT_BEGIN_NODE {
                let j = match find_nul(self.st, pos + 4) {
                    Some(j) => j,
                    None => {
                        return Err(FdtError::InvalidText);
                    },
                };
                let name_len = j - (pos + 4);
                let aligned = align_up(name_len + 1, 4);
                if aligned > rem - 4 {
                    return Err(FdtError::TruncatedRecord);
                }
                let name = copy_range(self.st, pos + 4, j);
                if !is_valid_utf8(name.as_slice()) {
                    return Err(FdtError::InvalidText);
                }
                self.pos = pos + 4 + aligned;
                return Ok(Some(StructItem::BeginNode { name }));
            } else if tag == FDT_END_NODE {
                self.pos = pos + 4;
                return Ok(Some(StructItem::EndNode));
            } else if tag == FDT_PROP {
                if rem < 12 {
                    return Err(FdtError::TruncatedRecord);
                }
                let len = read_be32(self.st, pos + 4) as usize;
                if len > rem - 12 {
                    return Err(FdtError::TruncatedRecord);
                }
                let aligned = align_up(len, 4);
                if aligned > rem - 12 {
                    return Err(FdtError::TruncatedRecord);
                }
                let nameoff = read_be32(self.st, pos + 8) as usize;
                if nameoff > self.strs.len() {
                    return Err(FdtError::OutOfBounds);
                }
                let j = match find_nul(self.strs, nameoff) {
                    Some(j) => j,
                    None => {
                        return Err(FdtError::InvalidText);
                    },
                };
                let name = copy_range(self.strs, nameoff, j);
                if !is_valid_utf8(name.as_slice()) {
                    return Err(FdtError::InvalidText);
                }
                let value = copy_range(self.st, pos + 12, pos + 12 + len);
                self.pos = pos + 12 + aligned;
                return Ok(Some(StructItem::Prop { name, value }));
            } else if tag == FDT_NOP {
                self.pos = pos + 4;
            } else if tag == FDT_END {
                if rem != 4 {
                    return Err(FdtError::MalformedToken);
                }
                self.pos = pos + 4;
                return Ok(None);
            } else {
                return Err(FdtError::MalformedToken);
            }
        }
    }
}

} // verus!
