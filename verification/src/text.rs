//! A variable-width wire type for text: a whole buffer viewed as one
//! UTF-8 value, with well-formed encoding as its validity predicate, and
//! the mapping between it and an owned logical string.

use crate::ule::{AsVarULE, VarULE};
use vstd::prelude::*;
use vstd::slice::slice_to_vec;
use vstd::string::StringSliceAdditionalSpecFns;
use vstd::utf8::{
    decode_utf8, encode_utf8, encode_utf8_decode_utf8, encode_utf8_valid_utf8, valid_utf8,
};

verus! {

/// The error reported when a byte buffer is not well-formed UTF-8 — for
/// example when it ends in a truncated multi-byte sequence.
#[derive(Clone, Copy, Debug, PartialEq, Eq, Structural)]
pub struct Utf8Error;

/// A variable-width wire value holding validated UTF-8 text. Its byte span
/// is the UTF-8 encoding of its characters, so every in-memory value is
/// well formed by construction.
#[derive(Clone, Debug, PartialEq, Eq)]
pub struct Utf8Str(pub String);

/// Relies on core::str::from_utf8: it succeeds exactly when the bytes are
/// valid UTF-8, and the returned slice borrows those same bytes.
#[verifier::external_body]
fn str_from_utf8(bytes: &[u8]) -> (r: Option<&str>)
    ensures
        r is Some <==> valid_utf8(bytes@),
        r matches Some(s) ==> s.spec_bytes() == bytes@,
{
    core::str::from_utf8(bytes).ok()
}

impl Utf8Str {
    /// The text as a borrowed string slice.
    pub fn as_str(&self) -> (r: &str)
        ensures
            r@ == self.0@,
    {
        self.0.as_str()
    }
}

impl VarULE for Utf8Str {
    type Error = Utf8Error;

    open spec fn spec_valid(bytes: Seq<u8>) -> bool {
        valid_utf8(bytes)
    }

    open spec fn spec_bytes(self) -> Seq<u8> {
        encode_utf8(self.0@)
    }

    proof fn lemma_bytes_wf(self) {
        encode_utf8_valid_utf8(self.0@);
    }

    fn parse_byte_slice(bytes: &[u8]) -> (r: Result<Self, Utf8Error>) {
        match str_from_utf8(bytes) {
            Some(s) => {
                let owned = s.to_owned();
                Ok(Utf8Str(owned))
            },
            None => Err(Utf8Error),
        }
    }

    fn from_byte_slice_unchecked(bytes: &[u8]) -> (r: Self) {
        match str_from_utf8(bytes) {
            Some(s) => Utf8Str(s.to_owned()),
            None => {
                proof {
                    assert(false);
                }
                Utf8Str(String::new())
            },
        }
    }

    fn as_byte_slice(&self) -> (r: Vec<u8>) {
        slice_to_vec(self.0.as_str().as_bytes())
    }
}

impl AsVarULE for String {
    type VarULE = Utf8Str;

    open spec fn spec_wire_bytes(self) -> Seq<u8> {
        encode_utf8(self@)
    }

    proof fn lemma_wire_bytes_wf(self) {
        encode_utf8_valid_utf8(self@);
    }

    fn as_unaligned(&self) -> (r: Utf8Str) {
        Utf8Str(self.clone())
    }

    fn from_unaligned(unaligned: &Utf8Str) -> (r: Self) {
        unaligned.0.clone()
    }
}

/// UTF-8 encoding is injective: two texts with the same wire bytes are the
/// same text. Since both conversion directions of [`AsVarULE`] preserve
/// wire bytes, converting a string to its wire value and back yields an
/// equal string, and repeated unchecked views of the same buffer agree.
pub proof fn lemma_text_wire_bytes_injective(a: Seq<char>, b: Seq<char>)
    requires
        encode_utf8(a) == encode_utf8(b),
    ensures
        a == b,
{
    encode_utf8_decode_utf8(a);
    encode_utf8_decode_utf8(b);
}

/// The decoding of a valid buffer is the one text whose encoding is the
/// buffer: what [`VarULE::parse_byte_slice`] and
/// [`VarULE::from_byte_slice_unchecked`] yield for [`Utf8Str`].
pub proof fn lemma_text_decoding_unique(bytes: Seq<u8>, v: Utf8Str)
    requires
        valid_utf8(bytes),
        v.spec_bytes() == bytes,
    ensures
        v.0@ == decode_utf8(bytes),
{
    encode_utf8_decode_utf8(v.0@);
}

} // verus!
