//! Is a byte slice `&[u8]` a valid UTF-8 string?
//!
//! The primary, grammar-based validator ([`grammar::is_utf8`]) and a
//! table-derived DFA validator ([`hoehrmann::is_utf8`]) are both proved
//! against the one mathematical model in [`model`], so their verdicts agree
//! on every input: the differential oracle of the design is a theorem here,
//! not a runtime check.

use vstd::prelude::*;

pub mod ascii;
pub mod grammar;
pub mod hoehrmann;
pub mod model;

pub use ascii::is_ascii_scalar;
pub use ascii::is_ascii_vector128;
pub use grammar::is_utf8 as is_utf8_grammar;
pub use hoehrmann::is_utf8 as is_utf8_hoehrmann;

use crate::model::error_len_of;
use crate::model::is_utf8_seq;
use crate::model::scan_from;

verus! {

/// Error returned when a byte sequence is not valid UTF-8.
#[derive(Clone, Copy, Debug)]
pub struct Utf8Error {
    valid_up_to: usize,
    error_len: Option<u8>,
}

impl Utf8Error {
    /// The index of the first byte that is not part of a valid prefix.
    pub closed spec fn spec_valid_up_to(self) -> int {
        self.valid_up_to as int
    }

    /// The length of the invalid unit at `valid_up_to`, or `None` when the
    /// input ends in the middle of a possible unit.
    pub closed spec fn spec_error_len(self) -> Option<int> {
        match self.error_len {
            Some(n) => Some(n as int),
            None => None,
        }
    }

    pub(crate) fn new(valid_up_to: usize, error_len: Option<u8>) -> (r: Utf8Error)
        ensures
            r.spec_valid_up_to() == valid_up_to,
            r.spec_error_len() == match error_len {
                Some(n) => Some(n as int),
                None => None::<int>,
            },
    {
        Utf8Error { valid_up_to, error_len }
    }

    /// Returns the index up to which the input was verified as valid UTF-8:
    /// bytes `[0, valid_up_to)` are themselves complete, valid UTF-8.
    pub fn valid_up_to(&self) -> (r: usize)
        ensures
            r == self.spec_valid_up_to(),
    {
        self.valid_up_to
    }

    /// `Some(n)` when the `n` bytes starting at `valid_up_to()` form a
    /// determinably invalid unit that a lossy decoder may skip; `None` when
    /// the input was truncated in the middle of a possible unit.
    pub fn error_len(&self) -> (r: Option<usize>)
        ensures
            match r {
                Some(n) => self.spec_error_len() == Some(n as int),
                None => self.spec_error_len() is None,
            },
    {
        match self.error_len {
            Some(n) => Some(n as usize),
            None => None,
        }
    }
}

/// The exact verdict of the grammar-based validator on input `s`: valid, or
/// invalid at the scan position with the precise error span.
pub open spec fn utf8_verdict(s: Seq<u8>, r: Result<(), Utf8Error>) -> bool {
    match r {
        Ok(_) => is_utf8_seq(s),
        Err(e) => {
            &&& !is_utf8_seq(s)
            &&& e.spec_valid_up_to() == scan_from(s, 0)
            &&& e.spec_error_len() == error_len_of(s, scan_from(s, 0))
        },
    }
}

/// The verdict of the DFA validator: it agrees with the grammar-based
/// validator on validity and on `valid_up_to`, but reports every
/// determinably invalid unit with span 1 (a known asymmetry of the design;
/// truncation is still reported as `None`).
pub open spec fn utf8_dfa_verdict(s: Seq<u8>, r: Result<(), Utf8Error>) -> bool {
    match r {
        Ok(_) => is_utf8_seq(s),
        Err(e) => {
            &&& !is_utf8_seq(s)
            &&& e.spec_valid_up_to() == scan_from(s, 0)
            &&& e.spec_error_len() == (if error_len_of(s, scan_from(s, 0)) is Some {
                Some(1int)
            } else {
                None::<int>
            })
        },
    }
}

/// The grammar-based validator and the DFA oracle agree: any two results
/// that meet the two contracts classify the input identically, and when
/// both report an error they report it at the same position, with the
/// same distinction between invalid content and truncation; only the span
/// granularity may differ.
pub proof fn lemma_oracle_agreement(
    s: Seq<u8>,
    g: Result<(), Utf8Error>,
    d: Result<(), Utf8Error>,
)
    requires
        utf8_verdict(s, g),
        utf8_dfa_verdict(s, d),
    ensures
        g is Ok <==> d is Ok,
        g matches Err(ge) ==> d matches Err(de) && ge.spec_valid_up_to()
            == de.spec_valid_up_to() && (ge.spec_error_len() is Some <==> de.spec_error_len()
            is Some),
{
}

/// Validates the byte slice: `Ok` exactly when it is well-formed UTF-8,
/// and otherwise the scan position and exact span of the first violation.
///
/// The verdict comes from the grammar-based validator. The DFA validator
/// is proved against the same model (see [`utf8_dfa_verdict`]), so the
/// cross-check between the two verdicts holds by proof on every input and
/// needs no runtime assertion here.
pub fn is_utf8(x: &[u8]) -> (r: Result<(), Utf8Error>)
    ensures
        utf8_verdict(x@, r),
{
    grammar::is_utf8(x)
}

/// Error returned when a byte sequence holds a byte that is not ASCII.
#[derive(Clone, Copy, Debug)]
pub struct AsciiError(pub usize);

impl AsciiError {
    /// Returns the index in the given input up to which valid ASCII was
    /// verified: it is the largest index such that every earlier byte is
    /// ASCII.
    pub fn valid_up_to(&self) -> (r: usize)
        ensures
            r == self.0,
    {
        self.0
    }
}

} // verus!
