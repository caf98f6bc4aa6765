//! The primary, grammar-based UTF-8 validator.
//!
//! It walks the input unit by unit: the expected width of each multi-byte
//! unit comes from the lead byte, and each following byte is checked
//! against the lead-dependent ranges of the model. Runs of ASCII bytes are
//! skipped through the block-at-a-time ASCII scanner instead of one byte
//! at a time. Unlike the DFA oracle it reports the exact offending span:
//! 1, 2 or 3 present-but-invalid bytes, or truncation.

use vstd::prelude::*;
use vstd::slice::slice_subrange;

use crate::ascii::is_ascii_vector128;
use crate::model::cont_ok;
use crate::model::error_len_of;
use crate::model::first_bad;
use crate::model::lemma_first_bad_step;
use crate::model::lemma_scan_ascii_run;
use crate::model::scan_from;
use crate::model::unit_at;
use crate::model::utf8_width;
use crate::utf8_verdict;
use crate::Utf8Error;

verus! {

/// The character-width classification: expected total width of the unit
/// introduced by lead byte `b`, 0 for a byte that cannot start a unit.
fn char_width(b: u8) -> (w: u8)
    ensures
        w as int == utf8_width(b),
{
    if b < 0x80 {
        1
    } else if b < 0xC2 {
        0
    } else if b <= 0xDF {
        2
    } else if b <= 0xEF {
        3
    } else if b <= 0xF4 {
        4
    } else {
        0
    }
}

/// Range check for the byte at offset `k` of the unit led by `lead`.
fn cont_byte_ok(lead: u8, k: usize, b: u8) -> (r: bool)
    requires
        1 <= k,
    ensures
        r == cont_ok(lead, k as int, b),
{
    if k == 1 {
        if lead == 0xE0 {
            0xA0 <= b && b <= 0xBF
        } else if lead == 0xED {
            0x80 <= b && b <= 0x9F
        } else if lead == 0xF0 {
            0x90 <= b && b <= 0xBF
        } else if lead == 0xF4 {
            0x80 <= b && b <= 0x8F
        } else {
            0x80 <= b && b <= 0xBF
        }
    } else {
        0x80 <= b && b <= 0xBF
    }
}

/// Validates `x` against the UTF-8 grammar, and pins the result exactly. `Ok`
/// exactly when `x` is valid UTF-8, else the scan position of the first
/// error together with the precise offending span.
pub fn is_utf8(x: &[u8]) -> (r: Result<(), Utf8Error>)
    ensures
        utf8_verdict(x@, r),
{
    let len = x.len();
    let mut i: usize = 0;
    while i < len
        invariant
            i <= len,
            len == x@.len(),
            scan_from(x@, 0) == scan_from(x@, i as int),
        decreases len - i,
    {
        let b = x[i];
        if b < 0x80 {
            // an ASCII run: skip it whole through the block scanner
            let rest = slice_subrange(x, i, len);
            let j = match is_ascii_vector128(rest) {
                Ok(()) => len,
                Err(e) => i + e,
            };
            proof {
                assert forall|m: int| i <= m < j implies x@[m] < 0x80 by {
                    assert(rest@[m - i] < 0x80);
                }
                lemma_scan_ascii_run(x@, i as int, j as int);
            }
            i = j;
        } else {
            let w = char_width(b);
            if w == 0 {
                proof {
                    assert(!unit_at(x@, i as int));
                }
                return Err(Utf8Error::new(i, Some(1)));
            }
            let w = w as usize;
            let ghost s = x@;
            let ghost ii = i as int;
            let mut k: usize = 1;
            while k < w
                invariant
                    1 <= k <= w,
                    i < len,
                    len == x@.len(),
                    s == x@,
                    ii == i as int,
                    b == x@[i as int],
                    w as int == utf8_width(b),
                    2 <= w <= 4,
                    scan_from(x@, 0) == scan_from(x@, i as int),
                    forall|j: int|
                        ii < j < ii + k ==> j < len && cont_ok(b, j - ii, #[trigger] s[j]),
                    first_bad(s, ii, 1) == first_bad(s, ii, k as int),
                decreases w - k,
            {
                if len - i <= k {
                    // the input ends inside this unit: truncation
                    proof {
                        assert(!unit_at(x@, i as int));
                        assert(first_bad(s, ii, k as int) is None);
                        assert(error_len_of(x@, i as int) is None);
                    }
                    return Err(Utf8Error::new(i, None));
                }
                let c = x[i + k];
                if !cont_byte_ok(b, k, c) {
                    // a present byte out of range: the unit is determinably
                    // invalid, and the span covers the bytes before it
                    proof {
                        assert(!unit_at(x@, i as int));
                        assert(first_bad(s, ii, k as int) == Some(k as int));
                        assert(error_len_of(x@, i as int) == Some(k as int));
                    }
                    return Err(Utf8Error::new(i, Some(k as u8)));
                }
                proof {
                    lemma_first_bad_step(s, ii, k as int);
                }
                k = k + 1;
            }
            // a complete valid unit of width w
            proof {
                assert(cont_ok(b, w - 1, s[ii + w - 1]));
                assert(ii + k <= len);
                assert(unit_at(x@, i as int));
                assert(scan_from(x@, ii) == scan_from(x@, ii + w as int));
            }
            i = i + w;
        }
    }
    proof {
        assert(!unit_at(x@, len as int));
        assert(scan_from(x@, len as int) == len as int);
    }
    Ok(())
}

} // verus!
