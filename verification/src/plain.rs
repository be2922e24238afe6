//! Plain fixed-width wire types: unaligned little-endian images of the
//! native integer types, valid for every bit pattern.

use crate::ule::{AsULE, EqULE, ULE};
use vstd::prelude::*;

verus! {

/// The little-endian byte image of a `u16`: low byte first.
pub open spec fn u16_le_bytes(x: u16) -> Seq<u8> {
    seq![(x & 0xff) as u8, ((x >> 8) & 0xff) as u8]
}

/// The `u16` whose little-endian byte image is the two given bytes.
pub open spec fn u16_from_le(b0: u8, b1: u8) -> u16 {
    (b0 as u16) | ((b1 as u16) << 8)
}

/// The little-endian byte image of a `u32`: low byte first.
pub open spec fn u32_le_bytes(x: u32) -> Seq<u8> {
    seq![
        (x & 0xff) as u8,
        ((x >> 8) & 0xff) as u8,
        ((x >> 16) & 0xff) as u8,
        ((x >> 24) & 0xff) as u8,
    ]
}

/// The `u32` whose little-endian byte image is the four given bytes.
pub open spec fn u32_from_le(b0: u8, b1: u8, b2: u8, b3: u8) -> u32 {
    (b0 as u32) | ((b1 as u32) << 8) | ((b2 as u32) << 16) | ((b3 as u32) << 24)
}

/// Reading a `u16` back from its little-endian bytes yields the value.
pub proof fn lemma_u16_le_round_trip(x: u16)
    ensures
        u16_from_le((x & 0xff) as u8, ((x >> 8) & 0xff) as u8) == x,
{
    assert((((x & 0xff) as u8) as u16) | (((((x >> 8) & 0xff) as u8) as u16) << 8) == x)
        by (bit_vector);
}

/// The little-endian bytes of the `u16` read from two bytes are those two
/// bytes.
pub proof fn lemma_u16_le_bytes_of(b0: u8, b1: u8)
    ensures
        (u16_from_le(b0, b1) & 0xff) as u8 == b0,
        ((u16_from_le(b0, b1) >> 8) & 0xff) as u8 == b1,
{
    assert(((((b0 as u16) | ((b1 as u16) << 8)) & 0xff) as u8) == b0) by (bit_vector);
    assert((((((b0 as u16) | ((b1 as u16) << 8)) >> 8) & 0xff) as u8) == b1) by (bit_vector);
}

/// Reading a `u32` back from its little-endian bytes yields the value.
pub proof fn lemma_u32_le_round_trip(x: u32)
    ensures
        u32_from_le(
            (x & 0xff) as u8,
            ((x >> 8) & 0xff) as u8,
            ((x >> 16) & 0xff) as u8,
            ((x >> 24) & 0xff) as u8,
        ) == x,
{
    assert((((x & 0xff) as u8) as u32) | (((((x >> 8) & 0xff) as u8) as u32) << 8) | (((((x >> 16)
        & 0xff) as u8) as u32) << 16) | (((((x >> 24) & 0xff) as u8) as u32) << 24) == x)
        by (bit_vector);
}

/// The little-endian bytes of the `u32` read from four bytes are those
/// four bytes.
pub proof fn lemma_u32_le_bytes_of(b0: u8, b1: u8, b2: u8, b3: u8)
    ensures
        (u32_from_le(b0, b1, b2, b3) & 0xff) as u8 == b0,
        ((u32_from_le(b0, b1, b2, b3) >> 8) & 0xff) as u8 == b1,
        ((u32_from_le(b0, b1, b2, b3) >> 16) & 0xff) as u8 == b2,
        ((u32_from_le(b0, b1, b2, b3) >> 24) & 0xff) as u8 == b3,
{
    let x = (b0 as u32) | ((b1 as u32) << 8) | ((b2 as u32) << 16) | ((b3 as u32) << 24);
    assert((x & 0xff) as u8 == b0 && ((x >> 8) & 0xff) as u8 == b1 && ((x >> 16) & 0xff) as u8
        == b2 && ((x >> 24) & 0xff) as u8 == b3) by (bit_vector)
        requires
            x == (b0 as u32) | ((b1 as u32) << 8) | ((b2 as u32) << 16) | ((b3 as u32) << 24),
    ;
}

/// The error reported when a byte buffer's length is not a multiple of a
/// plain wire type's width; plain wire types accept every bit pattern, so
/// no other error can arise.
#[derive(Clone, Copy, Debug, PartialEq, Eq, Structural)]
pub enum PlainUleError {
    /// The buffer length is not a multiple of the wire width.
    InvalidLength,
}

/// A two-byte plain wire value: the unaligned little-endian image of a
/// `u16`, with no forbidden bit patterns.
#[derive(Clone, Copy, Debug, PartialEq, Eq, Structural)]
pub struct PlainOldULE2 {
    /// The low byte.
    pub b0: u8,
    /// The high byte.
    pub b1: u8,
}

impl ULE for PlainOldULE2 {
    type Error = PlainUleError;

    open spec fn spec_width() -> nat {
        2
    }

    open spec fn spec_valid(chunk: Seq<u8>) -> bool {
        true
    }

    open spec fn spec_bytes(self) -> Seq<u8> {
        seq![self.b0, self.b1]
    }

    open spec fn spec_is_length_error(e: PlainUleError) -> bool {
        e is InvalidLength
    }

    open spec fn spec_is_bit_pattern_error(e: PlainUleError) -> bool {
        false
    }

    proof fn lemma_width_positive() {
    }

    proof fn lemma_bytes_wf(self) {
    }

    proof fn lemma_bytes_injective(a: Self, b: Self) {
        assert(a.spec_bytes()[0] == b.spec_bytes()[0]);
        assert(a.spec_bytes()[1] == b.spec_bytes()[1]);
    }

    fn width() -> usize {
        2
    }

    fn validate_chunk(chunk: &[u8]) -> bool {
        true
    }

    fn read_chunk(chunk: &[u8]) -> (r: Self) {
        let r = PlainOldULE2 { b0: chunk[0], b1: chunk[1] };
        proof {
            assert(r.spec_bytes() =~= chunk@);
        }
        r
    }

    fn write_to(&self, out: &mut Vec<u8>) {
        out.push(self.b0);
        out.push(self.b1);
        proof {
            assert(out@ =~= old(out)@ + self.spec_bytes());
        }
    }

    fn length_error() -> (e: PlainUleError) {
        PlainUleError::InvalidLength
    }

    fn bit_pattern_error() -> (e: PlainUleError) {
        proof {
            assert(false);
        }
        PlainUleError::InvalidLength
    }
}

/// A four-byte plain wire value: the unaligned little-endian image of a
/// `u32`, with no forbidden bit patterns.
#[derive(Clone, Copy, Debug, PartialEq, Eq, Structural)]
pub struct PlainOldULE4 {
    /// The lowest byte.
    pub b0: u8,
    /// The second byte.
    pub b1: u8,
    /// The third byte.
    pub b2: u8,
    /// The highest byte.
    pub b3: u8,
}

impl ULE for PlainOldULE4 {
    type Error = PlainUleError;

    open spec fn spec_width() -> nat {
        4
    }

    open spec fn spec_valid(chunk: Seq<u8>) -> bool {
        true
    }

    open spec fn spec_bytes(self) -> Seq<u8> {
        seq![self.b0, self.b1, self.b2, self.b3]
    }

    open spec fn spec_is_length_error(e: PlainUleError) -> bool {
        e is InvalidLength
    }

    open spec fn spec_is_bit_pattern_error(e: PlainUleError) -> bool {
        false
    }

    proof fn lemma_width_positive() {
    }

    proof fn lemma_bytes_wf(self) {
    }

    proof fn lemma_bytes_injective(a: Self, b: Self) {
        assert(a.spec_bytes()[0] == b.spec_bytes()[0]);
        assert(a.spec_bytes()[1] == b.spec_bytes()[1]);
        assert(a.spec_bytes()[2] == b.spec_bytes()[2]);
        assert(a.spec_bytes()[3] == b.spec_bytes()[3]);
    }

    fn width() -> usize {
        4
    }

    fn validate_chunk(chunk: &[u8]) -> bool {
        true
    }

    fn read_chunk(chunk: &[u8]) -> (r: Self) {
        let r = PlainOldULE4 { b0: chunk[0], b1: chunk[1], b2: chunk[2], b3: chunk[3] };
        proof {
            assert(r.spec_bytes() =~= chunk@);
        }
        r
    }

    fn write_to(&self, out: &mut Vec<u8>) {
        out.push(self.b0);
        out.push(self.b1);
        out.push(self.b2);
        out.push(self.b3);
        proof {
            assert(out@ =~= old(out)@ + self.spec_bytes());
        }
    }

    fn length_error() -> (e: PlainUleError) {
        PlainUleError::InvalidLength
    }

    fn bit_pattern_error() -> (e: PlainUleError) {
        proof {
            assert(false);
        }
        PlainUleError::InvalidLength
    }
}

impl AsULE for u16 {
    type ULE = PlainOldULE2;

    open spec fn spec_wire_bytes(self) -> Seq<u8> {
        u16_le_bytes(self)
    }

    proof fn lemma_wire_bytes_wf(self) {
    }

    proof fn lemma_wire_bytes_injective(a: Self, b: Self) {
        assert(a.spec_wire_bytes()[0] == b.spec_wire_bytes()[0]);
        assert(a.spec_wire_bytes()[1] == b.spec_wire_bytes()[1]);
        lemma_u16_le_round_trip(a);
        lemma_u16_le_round_trip(b);
    }

    proof fn lemma_wire_value_exists(self) {
        let w = PlainOldULE2 { b0: (self & 0xff) as u8, b1: ((self >> 8) & 0xff) as u8 };
        assert(w.spec_bytes() =~= self.spec_wire_bytes());
    }

    proof fn lemma_logical_value_exists(w: PlainOldULE2) {
        let x = u16_from_le(w.b0, w.b1);
        lemma_u16_le_bytes_of(w.b0, w.b1);
        assert(x.spec_wire_bytes() =~= w.spec_bytes());
    }

    fn as_unaligned(&self) -> (r: PlainOldULE2) {
        let x = *self;
        let r = PlainOldULE2 { b0: (x & 0xff) as u8, b1: ((x >> 8) & 0xff) as u8 };
        proof {
            assert(r.spec_bytes() =~= x.spec_wire_bytes());
        }
        r
    }

    fn from_unaligned(unaligned: &PlainOldULE2) -> (r: Self) {
        let x = (unaligned.b0 as u16) | ((unaligned.b1 as u16) << 8);
        proof {
            lemma_u16_le_bytes_of(unaligned.b0, unaligned.b1);
            assert(x.spec_wire_bytes() =~= unaligned.spec_bytes());
        }
        x
    }
}

impl AsULE for u32 {
    type ULE = PlainOldULE4;

    open spec fn spec_wire_bytes(self) -> Seq<u8> {
        u32_le_bytes(self)
    }

    proof fn lemma_wire_bytes_wf(self) {
    }

    proof fn lemma_wire_bytes_injective(a: Self, b: Self) {
        assert(a.spec_wire_bytes()[0] == b.spec_wire_bytes()[0]);
        assert(a.spec_wire_bytes()[1] == b.spec_wire_bytes()[1]);
        assert(a.spec_wire_bytes()[2] == b.spec_wire_bytes()[2]);
        assert(a.spec_wire_bytes()[3] == b.spec_wire_bytes()[3]);
        lemma_u32_le_round_trip(a);
        lemma_u32_le_round_trip(b);
    }

    proof fn lemma_wire_value_exists(self) {
        let w = PlainOldULE4 {
            b0: (self & 0xff) as u8,
            b1: ((self >> 8) & 0xff) as u8,
            b2: ((self >> 16) & 0xff) as u8,
            b3: ((self >> 24) & 0xff) as u8,
        };
        assert(w.spec_bytes() =~= self.spec_wire_bytes());
    }

    proof fn lemma_logical_value_exists(w: PlainOldULE4) {
        let x = u32_from_le(w.b0, w.b1, w.b2, w.b3);
        lemma_u32_le_bytes_of(w.b0, w.b1, w.b2, w.b3);
        assert(x.spec_wire_bytes() =~= w.spec_bytes());
    }

    fn as_unaligned(&self) -> (r: PlainOldULE4) {
        let x = *self;
        let r = PlainOldULE4 {
            b0: (x & 0xff) as u8,
            b1: ((x >> 8) & 0xff) as u8,
            b2: ((x >> 16) & 0xff) as u8,
            b3: ((x >> 24) & 0xff) as u8,
        };
        proof {
            assert(r.spec_bytes() =~= x.spec_wire_bytes());
        }
        r
    }

    fn from_unaligned(unaligned: &PlainOldULE4) -> (r: Self) {
        let x = (unaligned.b0 as u32) | ((unaligned.b1 as u32) << 8) | ((unaligned.b2 as u32)
            << 16) | ((unaligned.b3 as u32) << 24);
        proof {
            lemma_u32_le_bytes_of(unaligned.b0, unaligned.b1, unaligned.b2, unaligned.b3);
            assert(x.spec_wire_bytes() =~= unaligned.spec_bytes());
        }
        x
    }
}

/// On little-endian targets a `u16` is stored exactly as its wire image.
impl EqULE for u16 {

}

/// On little-endian targets a `u32` is stored exactly as its wire image.
impl EqULE for u32 {

}

} // verus!
