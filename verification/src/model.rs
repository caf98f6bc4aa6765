//! Mathematical model of UTF-8 well-formedness.
//!
//! A byte sequence is valid UTF-8 when it is a concatenation of complete
//! units. A unit is a single byte below 0x80, or a lead byte followed by
//! continuation bytes whose ranges depend on the lead (RFC 3629): the
//! lead-dependent range of the second byte rules out overlong encodings,
//! the surrogate range U+D800..U+DFFF, and code points above U+10FFFF.

use vstd::prelude::*;

verus! {

/// Total encoded width, in bytes, of the unit introduced by lead byte `b`,
/// or 0 when `b` cannot start a unit (a continuation byte, an overlong
/// 2-byte lead 0xC0/0xC1, or a byte above 0xF4).
pub open spec fn utf8_width(b: u8) -> int {
    if b < 0x80 {
        1
    } else if b < 0xC2 {
        0
    } else if b <= 0xDF {
        2
    } else if b <= 0xEF {
        3
    } else if b <= 0xF4 {
        4
    } else {
        0
    }
}

/// A continuation byte: bit pattern `10xxxxxx`.
pub open spec fn is_cont(b: u8) -> bool {
    0x80 <= b <= 0xBF
}

/// Whether `b` is acceptable as the byte at offset `k` (counted from the
/// lead, so `1 <= k < utf8_width(lead)`) of the unit introduced by `lead`.
/// The second byte of a 3- or 4-byte unit has a narrowed range for four
/// special leads; every other position takes any continuation byte.
pub open spec fn cont_ok(lead: u8, k: int, b: u8) -> bool {
    if k == 1 {
        if lead == 0xE0 {
            0xA0 <= b <= 0xBF
        } else if lead == 0xED {
            0x80 <= b <= 0x9F
        } else if lead == 0xF0 {
            0x90 <= b <= 0xBF
        } else if lead == 0xF4 {
            0x80 <= b <= 0x8F
        } else {
            is_cont(b)
        }
    } else {
        is_cont(b)
    }
}

/// A complete, valid unit starts at index `i` of `s`.
pub open spec fn unit_at(s: Seq<u8>, i: int) -> bool {
    &&& 0 <= i
    &&& 1 <= utf8_width(s[i])
    &&& i + utf8_width(s[i]) <= s.len()
    &&& forall|j: int| i < j < i + utf8_width(s[i]) ==> cont_ok(s[i], j - i, #[trigger] s[j])
}

/// Scans forward from `i`, consuming complete units, and returns the first
/// index at which no complete unit starts (the length of `s` when the whole
/// remainder is valid).
pub open spec fn scan_from(s: Seq<u8>, i: int) -> int
    recommends
        0 <= i <= s.len(),
    decreases s.len() - i,
    when 0 <= i <= s.len()
{
    if unit_at(s, i) {
        scan_from(s, i + utf8_width(s[i]))
    } else {
        i
    }
}

/// The whole sequence is valid UTF-8.
pub open spec fn is_utf8_seq(s: Seq<u8>) -> bool {
    scan_from(s, 0) == s.len()
}

/// Looks for the first offset `>= k` at which the unit led by `s[p]`
/// breaks: `Some(m)` when the byte at offset `m` is present but out of
/// range, `None` when the sequence ends before the unit is complete.
pub open spec fn first_bad(s: Seq<u8>, p: int, k: int) -> Option<int>
    decreases utf8_width(s[p]) - k,
{
    if k < utf8_width(s[p]) {
        if p + k >= s.len() {
            None
        } else if !cont_ok(s[p], k, s[p + k]) {
            Some(k)
        } else {
            first_bad(s, p, k + 1)
        }
    } else {
        None
    }
}

/// The error span reported at a stuck position `p` (where no complete unit
/// starts): `Some(n)` means bytes `[p, p + n)` are a determinably invalid
/// unit, `None` means the input ends in the middle of a possible unit.
pub open spec fn error_len_of(s: Seq<u8>, p: int) -> Option<int>
    recommends
        0 <= p < s.len(),
        !unit_at(s, p),
{
    if utf8_width(s[p]) == 0 {
        Some(1)
    } else {
        first_bad(s, p, 1)
    }
}

/// The first `n` bytes of `s` are ASCII.
pub open spec fn ascii_prefix(s: Seq<u8>, n: int) -> bool {
    forall|j: int| 0 <= j < n ==> s[j] < 0x80
}

/// The contract every ASCII-prefix scanner meets: `Ok` when the whole
/// input is ASCII, else the index of the first byte with the high bit set.
pub open spec fn ascii_verdict(s: Seq<u8>, r: Result<(), usize>) -> bool {
    match r {
        Ok(_) => ascii_prefix(s, s.len() as int),
        Err(i) => i < s.len() && s[i as int] >= 0x80 && ascii_prefix(s, i as int),
    }
}

/// A run of ASCII bytes is a run of complete one-byte units, so the scan
/// position moves across it unchanged in verdict.
pub proof fn lemma_scan_ascii_run(s: Seq<u8>, i: int, j: int)
    requires
        0 <= i <= j <= s.len(),
        forall|m: int| i <= m < j ==> s[m] < 0x80,
    ensures
        scan_from(s, i) == scan_from(s, j),
    decreases j - i,
{
    if i < j {
        assert(unit_at(s, i));
        lemma_scan_ascii_run(s, i + 1, j);
    }
}

/// When the byte at offset `k` of the unit led by `s[p]` is present and in
/// range, the search for the first offending offset moves past it.
pub proof fn lemma_first_bad_step(s: Seq<u8>, p: int, k: int)
    requires
        1 <= k < utf8_width(s[p]),
        p + k < s.len(),
        cont_ok(s[p], k, s[p + k]),
    ensures
        first_bad(s, p, k) == first_bad(s, p, k + 1),
{
}

/// Any two results that meet the ASCII-verdict contract are equal: the
/// scalar, portable-block and any other conforming scanner return the
/// identical verdict on identical input.
pub proof fn lemma_ascii_scanners_agree(s: Seq<u8>, r1: Result<(), usize>, r2: Result<(), usize>)
    requires
        ascii_verdict(s, r1),
        ascii_verdict(s, r2),
    ensures
        r1 == r2,
{
    match (r1, r2) {
        (Err(i), Err(j)) => {
            if (i as int) < j {
                assert(s[i as int] < 0x80);
            }
            if (j as int) < i {
                assert(s[j as int] < 0x80);
            }
            assert(i == j);
        },
        (Err(i), Ok(u)) => {
            assert(s[i as int] < 0x80);
        },
        (Ok(u), Err(j)) => {
            assert(s[j as int] < 0x80);
        },
        (Ok(u), Ok(v)) => {
            assert(u == v);
        },
    }
}

/// A single byte with its high bit set is not valid UTF-8 on its own, and
/// both the UTF-8 scan and the ASCII scan report failure at index 0.
pub proof fn lemma_lone_non_ascii(b: u8)
    requires
        0x80 <= b,
    ensures
        !is_utf8_seq(seq![b]),
        scan_from(seq![b], 0) == 0,
        !ascii_prefix(seq![b], 1),
{
    let s = seq![b];
    assert(!unit_at(s, 0));
    assert(s[0] == b);
}

/// Helper for the prefix law: if `s` is valid UTF-8 from position `i` on,
/// then the truncation `s.take(k)` scanned from `i` either reaches `k` (the
/// truncation is valid from `i`) or sticks at the start of a unit that was
/// cut, which is reported as truncation, never as invalid content.
proof fn lemma_valid_prefix_from(s: Seq<u8>, k: int, i: int)
    requires
        0 <= i <= k <= s.len(),
        scan_from(s, i) == s.len(),
    ensures
        scan_from(s.take(k), i) == k || error_len_of(s.take(k), scan_from(s.take(k), i)) is None,
        i <= scan_from(s.take(k), i) <= k,
    decreases k - i,
{
    let t = s.take(k);
    if i == k {
        assert(!unit_at(t, i));
    } else {
        assert(unit_at(s, i)) by {
            if !unit_at(s, i) {
                assert(scan_from(s, i) == i);
            }
        }
        let w = utf8_width(s[i]);
        if i + w <= k {
            assert(unit_at(t, i)) by {
                assert(forall|j: int| i < j < i + w ==> cont_ok(t[i], j - i, #[trigger] t[j]))
                    by {
                    assert(forall|j: int| i < j < i + w ==> cont_ok(s[i], j - i, #[trigger] s[j]));
                }
            }
            assert(scan_from(t, i) == scan_from(t, i + w));
            lemma_valid_prefix_from(s, k, i + w);
        } else {
            // the unit at i is cut by the truncation: w >= 2, and every
            // byte of the unit that survives is in range
            assert(!unit_at(t, i));
            assert(scan_from(t, i) == i);
            assert(utf8_width(t[i]) == w);
            assert(w >= 2);
            lemma_first_bad_truncated(t, i, 1);
        }
    }
}

/// When the unit led by `t[p]` has every present byte in range but runs
/// past the end of `t`, the first-offender search finds none.
proof fn lemma_first_bad_truncated(t: Seq<u8>, p: int, k: int)
    requires
        0 <= p < t.len(),
        1 <= k <= utf8_width(t[p]),
        p + utf8_width(t[p]) > t.len(),
        forall|j: int| p < j < t.len() && j < p + utf8_width(t[p]) ==> cont_ok(
            t[p],
            j - p,
            #[trigger] t[j],
        ),
    ensures
        first_bad(t, p, k) is None,
    decreases utf8_width(t[p]) - k,
{
    if k < utf8_width(t[p]) && p + k < t.len() {
        lemma_first_bad_truncated(t, p, k + 1);
    }
}

/// The prefix law: a truncation of valid UTF-8 is never rejected for its
/// content. Either the truncation is itself valid, or the verdict is
/// "truncated mid-unit" (`error_len` of `None`).
pub proof fn lemma_valid_prefix(s: Seq<u8>, k: int)
    requires
        0 <= k <= s.len(),
        is_utf8_seq(s),
    ensures
        is_utf8_seq(s.take(k)) || error_len_of(s.take(k), scan_from(s.take(k), 0)) is None,
{
    lemma_valid_prefix_from(s, k, 0);
    assert(s.take(k).len() == k);
}

} // verus!
