//! The memory-reservation block: fixed 16-byte records, read lazily up to
//! the first all-zero record.

use vstd::prelude::*;
use crate::bytes::{be64, read_be64};
use crate::FdtError;

verus! {

broadcast use vstd::slice::group_slice_axioms;

/// A region the firmware asserts must not be used: base address and size.
#[derive(Clone, Copy, Debug, PartialEq, Eq, Structural)]
pub struct MemoryReservation {
    pub address: u64,
    pub size: u64,
}

/// The reservation records of `b` from `pos` on, in file order, up to but
/// excluding the first all-zero record. A tail too short to hold another
/// record ends the sequence (the reader reports that case as an error).
pub open spec fn resv_list(b: Seq<u8>, pos: int) -> Seq<(int, int)>
    decreases b.len() - pos when 0 <= pos
{
    if pos + 16 > b.len() {
        seq![]
    } else if be64(b, pos) == 0 && be64(b, pos + 8) == 0 {
        seq![]
    } else {
        seq![(be64(b, pos), be64(b, pos + 8))] + resv_list(b, pos + 16)
    }
}

/// The reservation at index `i` of the list from `pos` is the record stored
/// 16·`i` bytes after `pos`, and is not the zero sentinel.
pub open spec fn resv_elem_ok(b: Seq<u8>, pos: int, i: int) -> bool {
    &&& pos + 16 * i + 16 <= b.len()
    &&& resv_list(b, pos)[i] == (be64(b, pos + 16 * i), be64(b, pos + 16 * i + 8))
    &&& !(be64(b, pos + 16 * i) == 0 && be64(b, pos + 16 * i + 8) == 0)
}

/// Reservations come out in file order, none of them is the zero sentinel,
/// and the enumeration stops exactly at the sentinel when one is present.
pub proof fn lemma_reservations_ordered(b: Seq<u8>, pos: int)
    requires
        0 <= pos,
    ensures
        forall|i: int| 0 <= i < resv_list(b, pos).len() ==> #[trigger] resv_elem_ok(b, pos, i),
        pos + 16 * resv_list(b, pos).len() + 16 <= b.len() ==> {
            &&& be64(b, pos + 16 * resv_list(b, pos).len()) == 0
            &&& be64(b, pos + 16 * resv_list(b, pos).len() + 8) == 0
        },
    decreases b.len() - pos,
{
    if pos + 16 > b.len() {
    } else if be64(b, pos) == 0 && be64(b, pos + 8) == 0 {
    } else {
        lemma_reservations_ordered(b, pos + 16);
        let rest = resv_list(b, pos + 16);
        assert(resv_list(b, pos) == seq![(be64(b, pos), be64(b, pos + 8))] + rest);
        assert forall|i: int| 0 <= i < resv_list(b, pos).len() implies
            #[trigger] resv_elem_ok(b, pos, i) by {
            if i > 0 {
                assert(resv_elem_ok(b, pos + 16, i - 1));
                assert(resv_list(b, pos)[i] == rest[i - 1]);
                assert((pos + 16) + 16 * (i - 1) == pos + 16 * i);
            } else {
                assert(resv_list(b, pos)[0] == (be64(b, pos), be64(b, pos + 8)));
            }
        }
        assert(16 * resv_list(b, pos).len() == 16 + 16 * rest.len());
    }
}

/// A cursor over the reservation block: `data` runs from the block's start
/// to the end of the blob, `pos` is how far reading has advanced.
#[derive(Clone, Copy)]
pub struct MemoryReservations<'a> {
    pub data: &'a [u8],
    pub pos: usize,
}

impl<'a> MemoryReservations<'a> {
    pub open spec fn wf(self) -> bool {
        self.pos <= self.data@.len()
    }

    /// Reads the next reservation record. Yields `Ok(None)` at the all-zero
    /// sentinel, without emitting it, and an error if the block ends before
    /// a sentinel was seen.
    pub fn next(&mut self) -> (r: Result<Option<MemoryReservation>, FdtError>)
        requires
            old(self).wf(),
        ensures
            final(self).wf(),
            final(self).data@ == old(self).data@,
            match r {
                Ok(Some(m)) => {
                    &&& resv_list(old(self).data@, old(self).pos as int)
                        == seq![(m.address as int, m.size as int)]
                            + resv_list(final(self).data@, final(self).pos as int)
                    &&& m.address == be64(old(self).data@, old(self).pos as int)
                    &&& m.size == be64(old(self).data@, old(self).pos as int + 8)
                    &&& final(self).pos == old(self).pos + 16
                },
                Ok(None) => {
                    &&& resv_list(old(self).data@, old(self).pos as int) == Seq::<(int, int)>::empty()
                    &&& old(self).pos + 16 <= old(self).data@.len()
                    &&& *final(self) == *old(self)
                },
                Err(e) => {
                    &&& e == FdtError::TruncatedRecord
                    &&& old(self).pos + 16 > old(self).data@.len()
                    &&& *final(self) == *old(self)
                },
            },
    {
        let n = self.data.len();
        if n - self.pos < 16 {
            return Err(FdtError::TruncatedRecord);
        }
        let address = read_be64(self.data, self.pos);
        let size = read_be64(self.data, self.pos + 8);
        if address == 0 && size == 0 {
            proof {
                assert(resv_list(self.data@, self.pos as int) =~= Seq::<(int, int)>::empty());
            }
            return Ok(None);
        }
        self.pos = self.pos + 16;
        Ok(Some(MemoryReservation { address, size }))
    }
}

} // verus!
