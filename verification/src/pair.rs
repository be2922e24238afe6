//! Compound fixed-width wire types, composed field by field in declaration
//! order: the total width is the sum of the field widths with no inserted
//! padding, and the validity predicate is the conjunction of the field
//! predicates. Two layouts of the same two fields show that swapping the
//! declaration order swaps the byte layout.

use crate::plain::{
    lemma_u16_le_bytes_of, lemma_u16_le_round_trip, lemma_u32_le_bytes_of,
    lemma_u32_le_round_trip, u16_from_le, u16_le_bytes, u32_from_le, u32_le_bytes, PlainOldULE2,
    PlainOldULE4, PlainUleError,
};
use crate::sign::SignULE;
use crate::ule::{AsULE, ULE};
use vstd::prelude::*;
use vstd::slice::slice_subrange;

verus! {

/// A logical pair of a 16-bit and a 32-bit integer.
#[derive(Clone, Copy, Debug, PartialEq, Eq, Structural)]
pub struct Pair {
    /// The first field, two bytes wide on the wire.
    pub first: u16,
    /// The second field, four bytes wide on the wire.
    pub second: u32,
}

/// The wire form of [`Pair`]: a width-2 field followed by a width-4 field,
/// total width 6, in declaration order.
#[derive(Clone, Copy, Debug, PartialEq, Eq, Structural)]
pub struct PairULE {
    /// The first field's wire image, bytes 0 and 1.
    pub first: PlainOldULE2,
    /// The second field's wire image, bytes 2 to 5.
    pub second: PlainOldULE4,
}

/// The same two fields as [`PairULE`] declared in the opposite order: the
/// width-4 field now comes first, so the byte layout changes accordingly
/// while the total width stays 6.
#[derive(Clone, Copy, Debug, PartialEq, Eq, Structural)]
pub struct FlippedPairULE {
    /// The four-byte field's wire image, bytes 0 to 3.
    pub second: PlainOldULE4,
    /// The two-byte field's wire image, bytes 4 and 5.
    pub first: PlainOldULE2,
}

impl ULE for PairULE {
    type Error = PlainUleError;

    open spec fn spec_width() -> nat {
        6
    }

    open spec fn spec_valid(chunk: Seq<u8>) -> bool {
        PlainOldULE2::spec_valid(chunk.subrange(0, 2)) && PlainOldULE4::spec_valid(
            chunk.subrange(2, 6),
        )
    }

    open spec fn spec_bytes(self) -> Seq<u8> {
        self.first.spec_bytes() + self.second.spec_bytes()
    }

    open spec fn spec_is_length_error(e: PlainUleError) -> bool {
        e is InvalidLength
    }

    open spec fn spec_is_bit_pattern_error(e: PlainUleError) -> bool {
        false
    }

    proof fn lemma_width_positive() {
    }

    proof fn lemma_bytes_wf(self) {
    }

    proof fn lemma_bytes_injective(a: Self, b: Self) {
        assert(a.first.spec_bytes() =~= a.spec_bytes().subrange(0, 2));
        assert(a.second.spec_bytes() =~= a.spec_bytes().subrange(2, 6));
        assert(b.first.spec_bytes() =~= b.spec_bytes().subrange(0, 2));
        assert(b.second.spec_bytes() =~= b.spec_bytes().subrange(2, 6));
        PlainOldULE2::lemma_bytes_injective(a.first, b.first);
        PlainOldULE4::lemma_bytes_injective(a.second, b.second);
    }

    fn width() -> usize {
        6
    }

    fn validate_chunk(chunk: &[u8]) -> bool {
        true
    }

    fn read_chunk(chunk: &[u8]) -> (r: Self) {
        let first = PlainOldULE2::read_chunk(slice_subrange(chunk, 0, 2));
        let second = PlainOldULE4::read_chunk(slice_subrange(chunk, 2, 6));
        let r = PairULE { first, second };
        proof {
            assert(r.spec_bytes() =~= chunk@);
        }
        r
    }

    fn write_to(&self, out: &mut Vec<u8>) {
        self.first.write_to(out);
        self.second.write_to(out);
        proof {
            assert(out@ =~= old(out)@ + self.spec_bytes());
        }
    }

    fn length_error() -> (e: PlainUleError) {
        PlainUleError::InvalidLength
    }

    fn bit_pattern_error() -> (e: PlainUleError) {
        proof {
            assert(false);
        }
        PlainUleError::InvalidLength
    }
}

impl ULE for FlippedPairULE {
    type Error = PlainUleError;

    open spec fn spec_width() -> nat {
        6
    }

    open spec fn spec_valid(chunk: Seq<u8>) -> bool {
        PlainOldULE4::spec_valid(chunk.subrange(0, 4)) && PlainOldULE2::spec_valid(
            chunk.subrange(4, 6),
        )
    }

    open spec fn spec_bytes(self) -> Seq<u8> {
        self.second.spec_bytes() + self.first.spec_bytes()
    }

    open spec fn spec_is_length_error(e: PlainUleError) -> bool {
        e is InvalidLength
    }

    open spec fn spec_is_bit_pattern_error(e: PlainUleError) -> bool {
        false
    }

    proof fn lemma_width_positive() {
    }

    proof fn lemma_bytes_wf(self) {
    }

    proof fn lemma_bytes_injective(a: Self, b: Self) {
        assert(a.second.spec_bytes() =~= a.spec_bytes().subrange(0, 4));
        assert(a.first.spec_bytes() =~= a.spec_bytes().subrange(4, 6));
        assert(b.second.spec_bytes() =~= b.spec_bytes().subrange(0, 4));
        assert(b.first.spec_bytes() =~= b.spec_bytes().subrange(4, 6));
        PlainOldULE4::lemma_bytes_injective(a.second, b.second);
        PlainOldULE2::lemma_bytes_injective(a.first, b.first);
    }

    fn width() -> usize {
        6
    }

    fn validate_chunk(chunk: &[u8]) -> bool {
        true
    }

    fn read_chunk(chunk: &[u8]) -> (r: Self) {
        let second = PlainOldULE4::read_chunk(slice_subrange(chunk, 0, 4));
        let first = PlainOldULE2::read_chunk(slice_subrange(chunk, 4, 6));
        let r = FlippedPairULE { second, first };
        proof {
            assert(r.spec_bytes() =~= chunk@);
        }
        r
    }

    fn write_to(&self, out: &mut Vec<u8>) {
        self.second.write_to(out);
        self.first.write_to(out);
        proof {
            assert(out@ =~= old(out)@ + self.spec_bytes());
        }
    }

    fn length_error() -> (e: PlainUleError) {
        PlainUleError::InvalidLength
    }

    fn bit_pattern_error() -> (e: PlainUleError) {
        proof {
            assert(false);
        }
        PlainUleError::InvalidLength
    }
}

impl AsULE for Pair {
    type ULE = PairULE;

    open spec fn spec_wire_bytes(self) -> Seq<u8> {
        u16_le_bytes(self.first) + u32_le_bytes(self.second)
    }

    proof fn lemma_wire_bytes_wf(self) {
    }

    proof fn lemma_wire_bytes_injective(a: Self, b: Self) {
        assert(u16_le_bytes(a.first) =~= a.spec_wire_bytes().subrange(0, 2));
        assert(u32_le_bytes(a.second) =~= a.spec_wire_bytes().subrange(2, 6));
        assert(u16_le_bytes(b.first) =~= b.spec_wire_bytes().subrange(0, 2));
        assert(u32_le_bytes(b.second) =~= b.spec_wire_bytes().subrange(2, 6));
        assert(u16_le_bytes(a.first)[0] == u16_le_bytes(b.first)[0]);
        assert(u16_le_bytes(a.first)[1] == u16_le_bytes(b.first)[1]);
        assert(u32_le_bytes(a.second)[0] == u32_le_bytes(b.second)[0]);
        assert(u32_le_bytes(a.second)[1] == u32_le_bytes(b.second)[1]);
        assert(u32_le_bytes(a.second)[2] == u32_le_bytes(b.second)[2]);
        assert(u32_le_bytes(a.second)[3] == u32_le_bytes(b.second)[3]);
        lemma_u16_le_round_trip(a.first);
        lemma_u16_le_round_trip(b.first);
        lemma_u32_le_round_trip(a.second);
        lemma_u32_le_round_trip(b.second);
    }

    proof fn lemma_wire_value_exists(self) {
        let w = PairULE {
            first: PlainOldULE2 {
                b0: (self.first & 0xff) as u8,
                b1: ((self.first >> 8) & 0xff) as u8,
            },
            second: PlainOldULE4 {
                b0: (self.second & 0xff) as u8,
                b1: ((self.second >> 8) & 0xff) as u8,
                b2: ((self.second >> 16) & 0xff) as u8,
                b3: ((self.second >> 24) & 0xff) as u8,
            },
        };
        assert(w.spec_bytes() =~= self.spec_wire_bytes());
    }

    proof fn lemma_logical_value_exists(w: PairULE) {
        let x = Pair {
            first: u16_from_le(w.first.b0, w.first.b1),
            second: u32_from_le(w.second.b0, w.second.b1, w.second.b2, w.second.b3),
        };
        lemma_u16_le_bytes_of(w.first.b0, w.first.b1);
        lemma_u32_le_bytes_of(w.second.b0, w.second.b1, w.second.b2, w.second.b3);
        assert(x.spec_wire_bytes() =~= w.spec_bytes());
    }

    fn as_unaligned(&self) -> (r: PairULE) {
        let r = PairULE { first: self.first.as_unaligned(), second: self.second.as_unaligned() };
        proof {
            assert(r.spec_bytes() =~= self.spec_wire_bytes());
        }
        r
    }

    fn from_unaligned(unaligned: &PairULE) -> (r: Self) {
        let r = Pair {
            first: u16::from_unaligned(&unaligned.first),
            second: u32::from_unaligned(&unaligned.second),
        };
        proof {
            assert(r.spec_wire_bytes() =~= unaligned.spec_bytes());
        }
        r
    }
}

/// The errors a buffer of signed-value records can be rejected with.
#[derive(Clone, Copy, Debug, PartialEq, Eq, Structural)]
pub enum SignedPairUleError {
    /// The buffer length is not a multiple of the (five-byte) width.
    InvalidLength,
    /// Some record's sign byte is outside the range 0 to 2.
    InvalidBitPattern,
}

/// A compound wire type with a fallibly validated field: a one-byte
/// [`SignULE`] followed by a four-byte magnitude. Its validity predicate is
/// the conjunction of the field predicates in field order, so a record is
/// rejected exactly when its sign byte is out of range.
#[derive(Clone, Copy, Debug, PartialEq, Eq, Structural)]
pub struct SignedPairULE {
    /// The sign's wire image, byte 0.
    pub sign: SignULE,
    /// The magnitude's wire image, bytes 1 to 4.
    pub magnitude: PlainOldULE4,
}

impl ULE for SignedPairULE {
    type Error = SignedPairUleError;

    open spec fn spec_width() -> nat {
        5
    }

    open spec fn spec_valid(chunk: Seq<u8>) -> bool {
        SignULE::spec_valid(chunk.subrange(0, 1)) && PlainOldULE4::spec_valid(
            chunk.subrange(1, 5),
        )
    }

    open spec fn spec_bytes(self) -> Seq<u8> {
        self.sign.spec_bytes() + self.magnitude.spec_bytes()
    }

    open spec fn spec_is_length_error(e: SignedPairUleError) -> bool {
        e is InvalidLength
    }

    open spec fn spec_is_bit_pattern_error(e: SignedPairUleError) -> bool {
        e is InvalidBitPattern
    }

    proof fn lemma_width_positive() {
    }

    proof fn lemma_bytes_wf(self) {
        self.sign.lemma_bytes_wf();
        assert(self.spec_bytes().subrange(0, 1) =~= self.sign.spec_bytes());
        assert(self.spec_bytes().subrange(1, 5) =~= self.magnitude.spec_bytes());
    }

    proof fn lemma_bytes_injective(a: Self, b: Self) {
        assert(a.sign.spec_bytes() =~= a.spec_bytes().subrange(0, 1));
        assert(a.magnitude.spec_bytes() =~= a.spec_bytes().subrange(1, 5));
        assert(b.sign.spec_bytes() =~= b.spec_bytes().subrange(0, 1));
        assert(b.magnitude.spec_bytes() =~= b.spec_bytes().subrange(1, 5));
        SignULE::lemma_bytes_injective(a.sign, b.sign);
        PlainOldULE4::lemma_bytes_injective(a.magnitude, b.magnitude);
    }

    fn width() -> usize {
        5
    }

    fn validate_chunk(chunk: &[u8]) -> (ok: bool) {
        let ok = SignULE::validate_chunk(slice_subrange(chunk, 0, 1));
        proof {
            assert(chunk@.subrange(1, 5).len() == 4);
        }
        ok
    }

    fn read_chunk(chunk: &[u8]) -> (r: Self) {
        let sign = SignULE::read_chunk(slice_subrange(chunk, 0, 1));
        let magnitude = PlainOldULE4::read_chunk(slice_subrange(chunk, 1, 5));
        let r = SignedPairULE { sign, magnitude };
        proof {
            assert(r.spec_bytes() =~= chunk@);
        }
        r
    }

    fn write_to(&self, out: &mut Vec<u8>) {
        self.sign.write_to(out);
        self.magnitude.write_to(out);
        proof {
            assert(out@ =~= old(out)@ + self.spec_bytes());
        }
    }

    fn length_error() -> (e: SignedPairUleError) {
        SignedPairUleError::InvalidLength
    }

    fn bit_pattern_error() -> (e: SignedPairUleError) {
        SignedPairUleError::InvalidBitPattern
    }
}

} // verus!
