//! A DFA UTF-8 validator in the style of Bjoern Hoehrmann's automaton.
//!
//! The automaton has 12 states over 9 character classes; 0 (ACCEPT) is the
//! initial state and 12 (REJECT) is absorbing. Each intermediate state
//! stands for the set of unit prefixes read so far, captured here by
//! [`pending_inv`], and every transition is proved against the grammar
//! model, so this validator returns the same validity verdict and the same
//! `valid_up_to` as the grammar-based one on every input. It reports every
//! determinably invalid unit with an `error_len` of 1 (a known asymmetry;
//! truncation is still reported as `None`).

use vstd::prelude::*;

use crate::model::cont_ok;
use crate::model::error_len_of;
use crate::model::first_bad;
use crate::model::is_cont;
use crate::model::lemma_first_bad_step;
use crate::model::scan_from;
use crate::model::unit_at;
use crate::model::utf8_width;
use crate::utf8_dfa_verdict;
use crate::Utf8Error;

verus! {

const UTF8_ACCEPT: u8 = 0;

const UTF8_REJECT: u8 = 12;

/// The byte-to-class map of the automaton: ASCII is class 0, the three
/// continuation ranges are classes 1, 9 and 7, ordinary leads are classes
/// 2 (two-byte) and 3 (three-byte), the four special leads 0xE0, 0xED,
/// 0xF0, 0xF4 have classes of their own, and bytes that cannot start or
/// continue a unit are class 8.
pub open spec fn class_of(b: u8) -> int {
    if b <= 0x7F {
        0
    } else if b <= 0x8F {
        1
    } else if b <= 0x9F {
        9
    } else if b <= 0xBF {
        7
    } else if b <= 0xC1 {
        8
    } else if b <= 0xDF {
        2
    } else if b == 0xE0 {
        10
    } else if b <= 0xEC {
        3
    } else if b == 0xED {
        4
    } else if b <= 0xEF {
        3
    } else if b == 0xF0 {
        11
    } else if b <= 0xF3 {
        6
    } else if b == 0xF4 {
        5
    } else {
        8
    }
}

/// The state-times-class transition map of the automaton.
pub open spec fn next_state(st: int, c: int) -> int {
    if st == 0 {
        if c == 0 {
            0
        } else if c == 2 {
            24
        } else if c == 3 {
            36
        } else if c == 4 {
            60
        } else if c == 5 {
            96
        } else if c == 6 {
            84
        } else if c == 10 {
            48
        } else if c == 11 {
            72
        } else {
            12
        }
    } else if st == 24 {
        if c == 1 || c == 7 || c == 9 {
            0
        } else {
            12
        }
    } else if st == 36 {
        if c == 1 || c == 7 || c == 9 {
            24
        } else {
            12
        }
    } else if st == 48 {
        if c == 7 {
            24
        } else {
            12
        }
    } else if st == 60 {
        if c == 1 || c == 9 {
            24
        } else {
            12
        }
    } else if st == 72 {
        if c == 7 || c == 9 {
            36
        } else {
            12
        }
    } else if st == 84 {
        if c == 1 || c == 7 || c == 9 {
            36
        } else {
            12
        }
    } else if st == 96 {
        if c == 1 {
            36
        } else {
            12
        }
    } else {
        12
    }
}

/// What each non-REJECT state means: with `p` the index after the last
/// complete prefix and `i` the next byte to read, the bytes `[p, i)` are
/// the pending prefix of one unit. State 0 means nothing is pending; state
/// 24 means exactly one plain continuation byte remains; state 36 means
/// two plain continuation bytes remain; states 48, 60, 72, 84 and 96 mean
/// one of the leads with a narrowed second-byte range was just read.
pub open spec fn pending_inv(s: Seq<u8>, p: int, i: int, st: int) -> bool {
    if st == 0 {
        p == i
    } else if st == 24 {
        ||| (i == p + 1 && utf8_width(s[p]) == 2)
        ||| (i == p + 2 && utf8_width(s[p]) == 3 && cont_ok(s[p], 1, s[p + 1]))
        ||| (i == p + 3 && utf8_width(s[p]) == 4 && cont_ok(s[p], 1, s[p + 1]) && cont_ok(
            s[p],
            2,
            s[p + 2],
        ))
    } else if st == 36 {
        ||| (i == p + 1 && utf8_width(s[p]) == 3 && s[p] != 0xE0 && s[p] != 0xED)
        ||| (i == p + 2 && utf8_width(s[p]) == 4 && cont_ok(s[p], 1, s[p + 1]))
    } else if st == 48 {
        i == p + 1 && s[p] == 0xE0
    } else if st == 60 {
        i == p + 1 && s[p] == 0xED
    } else if st == 72 {
        i == p + 1 && s[p] == 0xF0
    } else if st == 84 {
        i == p + 1 && 0xF1 <= s[p] <= 0xF3
    } else if st == 96 {
        i == p + 1 && s[p] == 0xF4
    } else {
        false
    }
}

/// One step of the automaton, related to the grammar model: reaching
/// ACCEPT completes a unit, reaching REJECT means the pending unit is
/// determinably invalid, and any other state extends the pending prefix.
proof fn lemma_dfa_step(s: Seq<u8>, p: int, i: int, st: int)
    requires
        0 <= p <= i < s.len(),
        st != 12,
        pending_inv(s, p, i, st),
    ensures
        next_state(st, class_of(s[i])) == 0 ==> unit_at(s, p) && p + utf8_width(s[p]) == i + 1,
        next_state(st, class_of(s[i])) == 12 ==> !unit_at(s, p) && scan_from(s, p) == p
            && error_len_of(s, p) is Some,
        next_state(st, class_of(s[i])) != 0 && next_state(st, class_of(s[i])) != 12
            ==> pending_inv(s, p, i + 1, next_state(st, class_of(s[i]))),
{
    let b = s[i];
    let c = class_of(b);
    let w = utf8_width(s[p]);
    if st == 0 {
        if c == 0 {
            assert(unit_at(s, p));
        } else if c == 1 || c == 7 || c == 8 || c == 9 {
            // a continuation byte or an invalid lead: width 0
            assert(utf8_width(b) == 0);
            assert(!unit_at(s, p));
            assert(error_len_of(s, p) == Some(1int));
        }
        // on the lead classes the new pending prefix is the single byte b
    } else {
        // a unit prefix of width w is pending, with k bytes still missing
        if next_state(st, c) == 12 {
            // the byte at offset i - p is present but out of range
            assert(!cont_ok(s[p], i - p, b));
            if unit_at(s, p) {
                assert(cont_ok(s[p], i - p, s[i]));
                assert(false);
            }
            if st == 24 && i == p + 2 && w == 3 {
                lemma_first_bad_step(s, p, 1);
            }
            if st == 24 && i == p + 3 && w == 4 {
                lemma_first_bad_step(s, p, 1);
                lemma_first_bad_step(s, p, 2);
            }
            if st == 36 && i == p + 2 && w == 4 {
                lemma_first_bad_step(s, p, 1);
            }
            assert(first_bad(s, p, i - p) == Some(i - p));
            assert(error_len_of(s, p) is Some);
        } else if next_state(st, c) == 0 {
            // st == 24: the last missing continuation byte arrived
            assert(is_cont(b));
            assert(i + 1 == p + w);
            assert forall|j: int| p < j < p + w implies cont_ok(s[p], j - p, #[trigger] s[j]) by {
                if j == i {
                    assert(cont_ok(s[p], i - p, b));
                }
            }
            assert(unit_at(s, p));
        } else {
            // the pending prefix grows by one byte that is in range
            assert(cont_ok(s[p], i - p, b));
            assert(pending_inv(s, p, i + 1, next_state(st, c)));
        }
    }
}

/// At the end of the input a pending prefix means truncation: every byte
/// of the unit that is present is in range, so the verdict is `None`, not
/// an invalid span.
proof fn lemma_dfa_truncated(s: Seq<u8>, p: int, st: int)
    requires
        0 <= p,
        st != 0,
        st != 12,
        pending_inv(s, p, s.len() as int, st),
    ensures
        p < s.len(),
        !unit_at(s, p),
        scan_from(s, p) == p,
        error_len_of(s, p) is None,
{
    let i = s.len() as int;
    let w = utf8_width(s[p]);
    assert(p + w > i);
    assert(!unit_at(s, p));
    if st == 24 && i == p + 2 && w == 3 {
        lemma_first_bad_step(s, p, 1);
    }
    if st == 24 && i == p + 3 && w == 4 {
        lemma_first_bad_step(s, p, 1);
        lemma_first_bad_step(s, p, 2);
    }
    if st == 36 && i == p + 2 && w == 4 {
        lemma_first_bad_step(s, p, 1);
    }
    assert(first_bad(s, p, i - p) is None);
    assert(error_len_of(s, p) is None);
}

/// Classifies one byte; mirrors the byte-to-class map.
fn byte_class(b: u8) -> (c: u8)
    ensures
        c as int == class_of(b),
{
    if b <= 0x7F {
        0
    } else if b <= 0x8F {
        1
    } else if b <= 0x9F {
        9
    } else if b <= 0xBF {
        7
    } else if b <= 0xC1 {
        8
    } else if b <= 0xDF {
        2
    } else if b == 0xE0 {
        10
    } else if b <= 0xEC {
        3
    } else if b == 0xED {
        4
    } else if b <= 0xEF {
        3
    } else if b == 0xF0 {
        11
    } else if b <= 0xF3 {
        6
    } else if b == 0xF4 {
        5
    } else {
        8
    }
}

/// One row lookup in the transition map.
fn transition(st: u8, c: u8) -> (r: u8)
    ensures
        r as int == next_state(st as int, c as int),
{
    if st == 0 {
        if c == 0 {
            0
        } else if c == 2 {
            24
        } else if c == 3 {
            36
        } else if c == 4 {
            60
        } else if c == 5 {
            96
        } else if c == 6 {
            84
        } else if c == 10 {
            48
        } else if c == 11 {
            72
        } else {
            12
        }
    } else if st == 24 {
        if c == 1 || c == 7 || c == 9 {
            0
        } else {
            12
        }
    } else if st == 36 {
        if c == 1 || c == 7 || c == 9 {
            24
        } else {
            12
        }
    } else if st == 48 {
        if c == 7 {
            24
        } else {
            12
        }
    } else if st == 60 {
        if c == 1 || c == 9 {
            24
        } else {
            12
        }
    } else if st == 72 {
        if c == 7 || c == 9 {
            36
        } else {
            12
        }
    } else if st == 84 {
        if c == 1 || c == 7 || c == 9 {
            36
        } else {
            12
        }
    } else if st == 96 {
        if c == 1 {
            36
        } else {
            12
        }
    } else {
        12
    }
}

/// One step of the automaton: classify the byte, then follow the
/// transition map.
fn decode(state: u8, byte: u8) -> (s2: u8)
    ensures
        s2 as int == next_state(state as int, class_of(byte)),
{
    let c = byte_class(byte);
    transition(state, c)
}

/// Validates `x` by running the automaton once over the input. `Ok`
/// exactly when `x` is valid UTF-8; on error, `valid_up_to` is the same
/// scan position the grammar validator reports, and `error_len` is
/// `Some(1)` for any determinably invalid unit and `None` for truncation.
pub fn is_utf8(x: &[u8]) -> (r: Result<(), Utf8Error>)
    ensures
        utf8_dfa_verdict(x@, r),
{
    let len = x.len();
    let mut st: u8 = UTF8_ACCEPT;
    let mut first_not_ok: usize = 0;
    let mut i: usize = 0;
    while i < len
        invariant
            i <= len,
            len == x@.len(),
            first_not_ok <= i,
            st != 12,
            scan_from(x@, 0) == scan_from(x@, first_not_ok as int),
            pending_inv(x@, first_not_ok as int, i as int, st as int),
        decreases len - i,
    {
        let b = x[i];
        proof {
            lemma_dfa_step(x@, first_not_ok as int, i as int, st as int);
        }
        st = decode(st, b);
        if st == UTF8_ACCEPT {
            first_not_ok = i + 1;
        } else if st == UTF8_REJECT {
            return Err(Utf8Error::new(first_not_ok, Some(1)));
        }
        i = i + 1;
    }
    if st == UTF8_ACCEPT {
        proof {
            assert(!unit_at(x@, len as int));
            assert(scan_from(x@, len as int) == len as int);
        }
        Ok(())
    } else {
        proof {
            lemma_dfa_truncated(x@, first_not_ok as int, st as int);
        }
        Err(Utf8Error::new(first_not_ok, None))
    }
}

} // verus!
