//! ASCII-prefix scanners.
//!
//! Both scanners meet the same exact contract: `Ok` when every byte is
//! ASCII, otherwise `Err` with the index of the first byte whose high bit
//! is set. Since the contract pins the result down, every scanner that
//! meets it returns the identical verdict on identical input.

use vstd::prelude::*;
use vstd::slice::slice_subrange;

use crate::model::ascii_prefix;
use crate::model::ascii_verdict;

verus! {

/// Ground truth: a per-byte high-bit test.
pub fn is_ascii_scalar(x: &[u8]) -> (r: Result<(), usize>)
    ensures
        ascii_verdict(x@, r),
{
    let len = x.len();
    let mut i: usize = 0;
    while i < len
        invariant
            i <= len,
            len == x@.len(),
            ascii_prefix(x@, i as int),
        decreases len - i,
    {
        if x[i] >= 0x80 {
            return Err(i);
        }
        i = i + 1;
    }
    Ok(())
}

/// Tests one 16-byte lane at `i`: folds the lane into an accumulator with
/// bitwise or and tests the accumulated high bit against the mask 0x80, as
/// the portable 128-bit lane scan does. A clear high bit means the whole
/// lane is ASCII.
fn lane_is_ascii(x: &[u8], i: usize) -> (r: bool)
    requires
        i + 16 <= x@.len(),
    ensures
        r ==> forall|m: int| i <= m < i + 16 ==> x@[m] < 0x80,
{
    let mut acc: u8 = 0;
    let mut m = i;
    while m - i < 16
        invariant
            i <= m <= i + 16,
            i + 16 <= x@.len(),
            acc & 0x80 == 0 ==> forall|j: int| i <= j < m ==> x@[j] < 0x80,
        decreases i + 16 - m,
    {
        let b = x[m];
        proof {
            assert((acc | b) & 0x80 == 0 ==> acc & 0x80 == 0 && b & 0x80 == 0) by (bit_vector);
            assert(b & 0x80 == 0 ==> b < 0x80) by (bit_vector);
        }
        acc = acc | b;
        m = m + 1;
    }
    acc & 0x80 == 0
}

/// Block-at-a-time scan in the style of the portable 128-bit scanner: each
/// iteration tests two 16-byte lanes; as long as both lanes are entirely
/// ASCII the scan advances a whole 32-byte block, and on the first block
/// that is not it falls back to the scalar scan from that block's start.
pub fn is_ascii_vector128(x: &[u8]) -> (r: Result<(), usize>)
    ensures
        ascii_verdict(x@, r),
{
    let len = x.len();
    let mut i: usize = 0;
    while len - i >= 32
        invariant
            i <= len,
            len == x@.len(),
            ascii_prefix(x@, i as int),
        ensures
            i <= len,
            len == x@.len(),
            ascii_prefix(x@, i as int),
        decreases len - i,
    {
        if !lane_is_ascii(x, i) {
            break;
        }
        if !lane_is_ascii(x, i + 16) {
            break;
        }
        i = i + 32;
    }
    let rest = slice_subrange(x, i, len);
    match is_ascii_scalar(rest) {
        Ok(()) => {
            proof {
                assert forall|j: int| 0 <= j < len implies x@[j] < 0x80 by {
                    if i <= j {
                        assert(rest@[j - i] < 0x80);
                    }
                }
            }
            Ok(())
        },
        Err(e) => {
            proof {
                assert(x@[i + e] >= 0x80);
                assert forall|j: int| 0 <= j < i + e implies x@[j] < 0x80 by {
                    if i <= j {
                        assert(rest@[j - i] < 0x80);
                    }
                }
            }
            Err(i + e)
        },
    }
}

} // verus!
