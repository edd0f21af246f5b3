//! Big-endian integer reads, NUL scanning and range copies over byte slices.

use vstd::prelude::*;
use vstd::slice::{slice_index_get, slice_subrange, slice_to_vec};

verus! {

broadcast use vstd::slice::group_slice_axioms;

/// The big-endian 32-bit value stored at byte offset `i` of `s`.
pub open spec fn be32(s: Seq<u8>, i: int) -> int {
    s[i] * 0x1000000 + s[i + 1] * 0x10000 + s[i + 2] * 0x100 + s[i + 3]
}

/// The big-endian 64-bit value stored at byte offset `i` of `s`.
pub open spec fn be64(s: Seq<u8>, i: int) -> int {
    be32(s, i) * 0x100000000 + be32(s, i + 4)
}

/// Index of the first NUL byte of `s` at or after `from`, or -1 if none.
pub open spec fn nul_at(s: Seq<u8>, from: int) -> int
    decreases s.len() - from when 0 <= from <= s.len()
{
    if from == s.len() {
        -1
    } else if s[from] == 0 {
        from
    } else {
        nul_at(s, from + 1)
    }
}

/// `nul_at` either finds no NUL or lands on one inside the sequence.
pub proof fn lemma_nul_at_range(s: Seq<u8>, from: int)
    requires
        0 <= from <= s.len(),
    ensures
        nul_at(s, from) == -1 || (from <= nul_at(s, from) < s.len() && s[nul_at(s, from)] == 0),
    decreases s.len() - from,
{
    if from < s.len() && s[from] != 0 {
        lemma_nul_at_range(s, from + 1);
    }
}

/// Reads the big-endian 32-bit word at offset `i`.
pub fn read_be32(s: &[u8], i: usize) -> (r: u32)
    requires
        i + 4 <= s@.len(),
    ensures
        r == be32(s@, i as int),
{
    let n = s.len();
    let b0 = *slice_index_get(s, i) as u32;
    let b1 = *slice_index_get(s, i + 1) as u32;
    let b2 = *slice_index_get(s, i + 2) as u32;
    let b3 = *slice_index_get(s, i + 3) as u32;
    b0 * 0x1000000 + b1 * 0x10000 + b2 * 0x100 + b3
}

/// Reads the big-endian 64-bit word at offset `i`.
pub fn read_be64(s: &[u8], i: usize) -> (r: u64)
    requires
        i + 8 <= s@.len(),
    ensures
        r == be64(s@, i as int),
{
    let n = s.len();
    let hi = read_be32(s, i) as u64;
    let lo = read_be32(s, i + 4) as u64;
    hi * 0x100000000 + lo
}

/// Finds the first NUL byte at or after `from`.
pub fn find_nul(s: &[u8], from: usize) -> (r: Option<usize>)
    requires
        from <= s@.len(),
    ensures
        match r {
            Some(j) => from <= j < s@.len() && nul_at(s@, from as int) == j,
            None => nul_at(s@, from as int) == -1,
        },
{
    let mut i = from;
    while i < s.len()
        invariant
            from <= i <= s@.len(),
            nul_at(s@, from as int) == nul_at(s@, i as int),
        decreases s@.len() - i,
    {
        if *slice_index_get(s, i) == 0 {
            return Some(i);
        }
        i = i + 1;
    }
    None
}

/// Copies the bytes of `s` in `[i, j)` into an owned vector.
pub fn copy_range(s: &[u8], i: usize, j: usize) -> (r: Vec<u8>)
    requires
        i <= j <= s@.len(),
    ensures
        r@ == s@.subrange(i as int, j as int),
{
    slice_to_vec(slice_subrange(s, i, j))
}

} // verus!
