//! Well-formedness of UTF-8 byte sequences, for node and property names.

use vstd::prelude::*;

verus! {

broadcast use vstd::slice::group_slice_axioms;

/// A continuation byte of a multi-byte UTF-8 sequence.
pub open spec fn is_cont(b: u8) -> bool {
    0x80 <= b <= 0xBF
}

/// Whether `s` is a well-formed UTF-8 byte sequence: every code unit
/// sequence follows the shortest-form table, and surrogates and values
/// above 0x10FFFF are excluded.
pub open spec fn is_utf8(s: Seq<u8>) -> bool
    decreases s.len(),
{
    if s.len() == 0 {
        true
    } else {
        let b0 = s[0];
        if b0 <= 0x7F {
            is_utf8(s.skip(1))
        } else if 0xC2 <= b0 && b0 <= 0xDF {
            s.len() >= 2 && is_cont(s[1]) && is_utf8(s.skip(2))
        } else if b0 == 0xE0 {
            s.len() >= 3 && 0xA0 <= s[1] && s[1] <= 0xBF && is_cont(s[2]) && is_utf8(s.skip(3))
        } else if 0xE1 <= b0 && b0 <= 0xEF && b0 != 0xED {
            s.len() >= 3 && is_cont(s[1]) && is_cont(s[2]) && is_utf8(s.skip(3))
        } else if b0 == 0xED {
            s.len() >= 3 && 0x80 <= s[1] && s[1] <= 0x9F && is_cont(s[2]) && is_utf8(s.skip(3))
        } else if b0 == 0xF0 {
            s.len() >= 4 && 0x90 <= s[1] && s[1] <= 0xBF && is_cont(s[2]) && is_cont(s[3])
                && is_utf8(s.skip(4))
        } else if 0xF1 <= b0 && b0 <= 0xF3 {
            s.len() >= 4 && is_cont(s[1]) && is_cont(s[2]) && is_cont(s[3]) && is_utf8(s.skip(4))
        } else if b0 == 0xF4 {
            s.len() >= 4 && 0x80 <= s[1] && s[1] <= 0x8F && is_cont(s[2]) && is_cont(s[3])
                && is_utf8(s.skip(4))
        } else {
            false
        }
    }
}

/// Decides whether `s` is well-formed UTF-8.
pub fn is_valid_utf8(s: &[u8]) -> (r: bool)
    ensures
        r == is_utf8(s@),
{
    let n = s.len();
    let mut i: usize = 0;
    proof {
        assert(s@.skip(0) =~= s@);
    }
    while i < n
        invariant
            i <= n,
            n == s@.len(),
            is_utf8(s@) == is_utf8(s@.skip(i as int)),
        decreases n - i,
    {
        let ghost tail = s@.skip(i as int);
        proof {
            assert(tail.len() == n - i);
            assert forall|k: int| 0 <= k < tail.len() implies tail[k] == s@[i + k] by {}
        }
        let b0 = *vstd::slice::slice_index_get(s, i);
        let step: usize;
        if b0 <= 0x7F {
            step = 1;
        } else if 0xC2 <= b0 && b0 <= 0xDF {
            if !(n - i >= 2 && cont_at(s, i + 1)) {
                proof { assert(!is_utf8(tail)); }
                return false;
            }
            step = 2;
        } else if b0 == 0xE0 {
            if !(n - i >= 3 && byte_in(s, i + 1, 0xA0, 0xBF) && cont_at(s, i + 2)) {
                proof { assert(!is_utf8(tail)); }
                return false;
            }
            step = 3;
        } else if 0xE1 <= b0 && b0 <= 0xEF && b0 != 0xED {
            if !(n - i >= 3 && cont_at(s, i + 1) && cont_at(s, i + 2)) {
                proof { assert(!is_utf8(tail)); }
                return false;
            }
            step = 3;
        } else if b0 == 0xED {
            if !(n - i >= 3 && byte_in(s, i + 1, 0x80, 0x9F) && cont_at(s, i + 2)) {
                proof { assert(!is_utf8(tail)); }
                return false;
            }
            step = 3;
        } else if b0 == 0xF0 {
            if !(n - i >= 4 && byte_in(s, i + 1, 0x90, 0xBF) && cont_at(s, i + 2)
                && cont_at(s, i + 3)) {
                proof { assert(!is_utf8(tail)); }
                return false;
            }
            step = 4;
        } else if 0xF1 <= b0 && b0 <= 0xF3 {
            if !(n - i >= 4 && cont_at(s, i + 1) && cont_at(s, i + 2) && cont_at(s, i + 3)) {
                proof { assert(!is_utf8(tail)); }
                return false;
            }
            step = 4;
        } else if b0 == 0xF4 {
            if !(n - i >= 4 && byte_in(s, i + 1, 0x80, 0x8F) && cont_at(s, i + 2)
                && cont_at(s, i + 3)) {
                proof { assert(!is_utf8(tail)); }
                return false;
            }
            step = 4;
        } else {
            proof { assert(!is_utf8(tail)); }
            return false;
        }
        proof {
            assert(tail.skip(step as int) =~= s@.skip(i + step));
            assert(is_utf8(tail) == is_utf8(s@.skip(i + step)));
        }
        i = i + step;
    }
    proof {
        assert(s@.skip(i as int).len() == 0);
    }
    true
}

/// Whether the byte at `i` is a UTF-8 continuation byte.
fn cont_at(s: &[u8], i: usize) -> (r: bool)
    requires
        i < s@.len(),
    ensures
        r == is_cont(s@[i as int]),
{
    let b = *vstd::slice::slice_index_get(s, i);
    0x80 <= b && b <= 0xBF
}

/// Whether the byte at `i` lies in `[lo, hi]`.
fn byte_in(s: &[u8], i: usize, lo: u8, hi: u8) -> (r: bool)
    requires
        i < s@.len(),
    ensures
        r == (lo <= s@[i as int] <= hi),
{
    let b = *vstd::slice::slice_index_get(s, i);
    lo <= b && b <= hi
}

} // verus!
