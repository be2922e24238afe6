//! A fixed-width wire type with a bounded validity domain: a three-valued
//! sign, stored as one byte whose only valid bit patterns are 0, 1 and 2.

use crate::ule::{AsULE, ULE};
use vstd::prelude::*;

verus! {

/// The errors a buffer of sign bytes can be rejected with.
#[derive(Clone, Copy, Debug, PartialEq, Eq, Structural)]
pub enum SignUleError {
    /// The buffer length is not a multiple of the (one-byte) width.
    InvalidLength,
    /// Some byte is outside the valid discriminant range 0 to 2.
    InvalidBitPattern,
}

/// A logical three-valued sign.
#[derive(Clone, Copy, Debug, PartialEq, Eq, Structural)]
pub enum Sign {
    /// Less than zero; wire discriminant 0.
    Negative,
    /// Exactly zero; wire discriminant 1.
    Zero,
    /// Greater than zero; wire discriminant 2.
    Positive,
}

/// The wire form of [`Sign`]: one byte holding the discriminant, with
/// bytes 3 to 255 forbidden. Validated bytes decode to exactly these three
/// values, so no in-memory wire value is ever out of range.
#[derive(Clone, Copy, Debug, PartialEq, Eq, Structural)]
pub enum SignULE {
    /// The byte 0.
    Negative,
    /// The byte 1.
    Zero,
    /// The byte 2.
    Positive,
}

impl ULE for SignULE {
    type Error = SignUleError;

    open spec fn spec_width() -> nat {
        1
    }

    open spec fn spec_valid(chunk: Seq<u8>) -> bool {
        chunk.len() == 1 && chunk[0] < 3
    }

    open spec fn spec_bytes(self) -> Seq<u8> {
        match self {
            SignULE::Negative => seq![0u8],
            SignULE::Zero => seq![1u8],
            SignULE::Positive => seq![2u8],
        }
    }

    open spec fn spec_is_length_error(e: SignUleError) -> bool {
        e is InvalidLength
    }

    open spec fn spec_is_bit_pattern_error(e: SignUleError) -> bool {
        e is InvalidBitPattern
    }

    proof fn lemma_width_positive() {
    }

    proof fn lemma_bytes_wf(self) {
    }

    proof fn lemma_bytes_injective(a: Self, b: Self) {
        assert(match a {
            SignULE::Negative => a.spec_bytes()[0] == 0,
            SignULE::Zero => a.spec_bytes()[0] == 1,
            SignULE::Positive => a.spec_bytes()[0] == 2,
        });
        assert(match b {
            SignULE::Negative => b.spec_bytes()[0] == 0,
            SignULE::Zero => b.spec_bytes()[0] == 1,
            SignULE::Positive => b.spec_bytes()[0] == 2,
        });
        assert(a.spec_bytes()[0] == b.spec_bytes()[0]);
    }

    fn width() -> usize {
        1
    }

    fn validate_chunk(chunk: &[u8]) -> bool {
        chunk[0] < 3
    }

    fn read_chunk(chunk: &[u8]) -> (r: Self) {
        let b = chunk[0];
        let r = if b == 0 {
            SignULE::Negative
        } else if b == 1 {
            SignULE::Zero
        } else {
            SignULE::Positive
        };
        proof {
            assert(r.spec_bytes() =~= chunk@);
        }
        r
    }

    fn write_to(&self, out: &mut Vec<u8>) {
        let b: u8 = match self {
            SignULE::Negative => 0,
            SignULE::Zero => 1,
            SignULE::Positive => 2,
        };
        out.push(b);
        proof {
            assert(out@ =~= old(out)@ + self.spec_bytes());
        }
    }

    fn length_error() -> (e: SignUleError) {
        SignUleError::InvalidLength
    }

    fn bit_pattern_error() -> (e: SignUleError) {
        SignUleError::InvalidBitPattern
    }
}

impl AsULE for Sign {
    type ULE = SignULE;

    open spec fn spec_wire_bytes(self) -> Seq<u8> {
        match self {
            Sign::Negative => seq![0u8],
            Sign::Zero => seq![1u8],
            Sign::Positive => seq![2u8],
        }
    }

    proof fn lemma_wire_bytes_wf(self) {
    }

    proof fn lemma_wire_bytes_injective(a: Self, b: Self) {
        assert(match a {
            Sign::Negative => a.spec_wire_bytes()[0] == 0,
            Sign::Zero => a.spec_wire_bytes()[0] == 1,
            Sign::Positive => a.spec_wire_bytes()[0] == 2,
        });
        assert(match b {
            Sign::Negative => b.spec_wire_bytes()[0] == 0,
            Sign::Zero => b.spec_wire_bytes()[0] == 1,
            Sign::Positive => b.spec_wire_bytes()[0] == 2,
        });
        assert(a.spec_wire_bytes()[0] == b.spec_wire_bytes()[0]);
    }

    proof fn lemma_wire_value_exists(self) {
        let w = match self {
            Sign::Negative => SignULE::Negative,
            Sign::Zero => SignULE::Zero,
            Sign::Positive => SignULE::Positive,
        };
        assert(w.spec_bytes() == self.spec_wire_bytes());
    }

    proof fn lemma_logical_value_exists(w: SignULE) {
        let x = match w {
            SignULE::Negative => Sign::Negative,
            SignULE::Zero => Sign::Zero,
            SignULE::Positive => Sign::Positive,
        };
        assert(x.spec_wire_bytes() == w.spec_bytes());
    }

    fn as_unaligned(&self) -> (r: SignULE) {
        match self {
            Sign::Negative => SignULE::Negative,
            Sign::Zero => SignULE::Zero,
            Sign::Positive => SignULE::Positive,
        }
    }

    fn from_unaligned(unaligned: &SignULE) -> (r: Self) {
        match unaligned {
            SignULE::Negative => Sign::Negative,
            SignULE::Zero => Sign::Zero,
            SignULE::Positive => Sign::Positive,
        }
    }
}

} // verus!
