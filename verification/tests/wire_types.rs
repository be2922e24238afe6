//! End-to-end tests of the wire-type contracts: parsing, encoding,
//! conversion round trips, the little-endian fast path, and the rejection
//! of malformed buffers.

use zerovec::pair::{FlippedPairULE, Pair, PairULE, SignedPairULE, SignedPairUleError};
use zerovec::plain::{PlainOldULE2, PlainOldULE4, PlainUleError};
use zerovec::sign::{Sign, SignULE, SignUleError};
use zerovec::text::{Utf8Error, Utf8Str};
use zerovec::ule::{slice_to_unaligned, AsULE, AsVarULE, SliceAsULE, VarULE, ULE};

#[test]
fn round_trip_u16() {
    for x in [0u16, 1, 0x1234, 0xFF00, u16::MAX] {
        let wire = x.as_unaligned();
        assert_eq!(u16::from_unaligned(&wire), x);
    }
}

#[test]
fn round_trip_u32() {
    for x in [0u32, 1, 0x12345678, 0xDEADBEEF, u32::MAX] {
        let wire = x.as_unaligned();
        assert_eq!(u32::from_unaligned(&wire), x);
    }
}

#[test]
fn round_trip_sign() {
    for s in [Sign::Negative, Sign::Zero, Sign::Positive] {
        let wire = s.as_unaligned();
        assert_eq!(Sign::from_unaligned(&wire), s);
    }
}

#[test]
fn round_trip_pair() {
    let p = Pair { first: 0x1122, second: 0x33445566 };
    let wire = p.as_unaligned();
    assert_eq!(Pair::from_unaligned(&wire), p);
}

#[test]
fn round_trip_string() {
    let s = String::from("h\u{e9}llo \u{1f642}");
    let wire = s.as_unaligned();
    let back = <String as AsVarULE>::from_unaligned(&wire);
    assert_eq!(back, s);
}

#[test]
fn validation_soundness_u32() {
    let values = [1u32, 0x12345678, u32::MAX, 0];
    let slice: Vec<PlainOldULE4> = values.iter().map(|x| x.as_unaligned()).collect();
    let bytes = PlainOldULE4::as_byte_slice(&slice);
    let parsed = PlainOldULE4::parse_byte_slice(&bytes).unwrap();
    assert_eq!(parsed, slice);
}

#[test]
fn validation_soundness_sign() {
    let slice = vec![SignULE::Positive, SignULE::Negative, SignULE::Zero];
    let bytes = SignULE::as_byte_slice(&slice);
    assert_eq!(bytes, vec![2u8, 0u8, 1u8]);
    let parsed = SignULE::parse_byte_slice(&bytes).unwrap();
    assert_eq!(parsed, slice);
}

#[test]
fn length_rejection_width_4() {
    let bytes: &[u8] = &[1, 2, 3];
    assert_eq!(PlainOldULE4::parse_byte_slice(bytes), Err(PlainUleError::InvalidLength));
}

#[test]
fn length_rejection_width_2() {
    let bytes: &[u8] = &[1, 2, 3];
    assert_eq!(PlainOldULE2::parse_byte_slice(bytes), Err(PlainUleError::InvalidLength));
}

#[test]
fn length_rejection_width_6() {
    let bytes: &[u8] = &[1, 2, 3, 4];
    assert_eq!(PairULE::parse_byte_slice(bytes), Err(PlainUleError::InvalidLength));
}

#[test]
fn bit_pattern_rejection() {
    let bytes: &[u8] = &[7];
    assert_eq!(SignULE::parse_byte_slice(bytes), Err(SignUleError::InvalidBitPattern));
}

#[test]
fn bit_pattern_rejection_after_valid_chunk() {
    let bytes: &[u8] = &[1, 7];
    assert_eq!(SignULE::parse_byte_slice(bytes), Err(SignUleError::InvalidBitPattern));
}

#[test]
fn sign_length_error_comes_first() {
    // An empty buffer is fine; a valid buffer of each variant parses back.
    assert_eq!(SignULE::parse_byte_slice(&[]).unwrap(), vec![]);
    let parsed = SignULE::parse_byte_slice(&[0, 1, 2]).unwrap();
    assert_eq!(parsed, vec![SignULE::Negative, SignULE::Zero, SignULE::Positive]);
}

#[test]
fn fast_path_returns_some_on_little_endian() {
    // These tests run on a little-endian target, where the whole-slice
    // conversion must be available and agree with element-wise conversion.
    let xs = [0x1234u16, 0xABCD];
    let wire = <u16 as SliceAsULE>::slice_as_unaligned(&xs).expect("little-endian target");
    let elementwise: Vec<PlainOldULE2> = xs.iter().map(|x| x.as_unaligned()).collect();
    assert_eq!(wire, elementwise);
    let bytes = PlainOldULE2::as_byte_slice(&wire);
    assert_eq!(bytes, vec![0x34, 0x12, 0xCD, 0xAB]);
}

#[test]
fn fast_path_simulated_big_endian_returns_none() {
    let xs = [1u32, 2, 3];
    assert!(slice_to_unaligned(false, &xs).is_none());
}

#[test]
fn fast_path_simulated_little_endian_matches_elementwise() {
    let xs = [1u32, 0xA0B0C0D0];
    let wire = slice_to_unaligned(true, &xs).expect("fast path requested");
    let elementwise: Vec<PlainOldULE4> = xs.iter().map(|x| x.as_unaligned()).collect();
    assert_eq!(wire, elementwise);
}

#[test]
fn unchecked_view_idempotent_fixed() {
    let bytes: &[u8] = &[1, 0, 0, 0, 2, 0, 0, 0];
    let first = PlainOldULE4::from_byte_slice_unchecked(bytes);
    let second = PlainOldULE4::from_byte_slice_unchecked(bytes);
    assert_eq!(first, second);
    assert_eq!(PlainOldULE4::parse_byte_slice(bytes).unwrap(), first);
}

#[test]
fn unchecked_view_idempotent_text() {
    let bytes: &[u8] = &[0x61, 0x62];
    let first = Utf8Str::from_byte_slice_unchecked(bytes);
    let second = Utf8Str::from_byte_slice_unchecked(bytes);
    assert_eq!(first, second);
}

#[test]
fn scenario_a_four_byte_integer() {
    let bytes: &[u8] = &[0x01, 0x00, 0x00, 0x00];
    let parsed = PlainOldULE4::parse_byte_slice(bytes).unwrap();
    assert_eq!(parsed.len(), 1);
    assert_eq!(u32::from_unaligned(&parsed[0]), 1);
}

#[test]
fn scenario_b_text_parses() {
    let bytes: &[u8] = &[0x61, 0x62];
    let wire = Utf8Str::parse_byte_slice(bytes).unwrap();
    assert_eq!(wire.as_str(), "ab");
    let logical = <String as AsVarULE>::from_unaligned(&wire);
    assert_eq!(logical, "ab");
    assert_eq!(wire.as_byte_slice(), vec![0x61, 0x62]);
}

#[test]
fn scenario_b_truncated_multibyte_rejected() {
    // The first byte of a two-byte encoding with the continuation cut off.
    assert_eq!(Utf8Str::parse_byte_slice(&[0xC3]), Err(Utf8Error));
    // A three-byte encoding missing its last continuation byte.
    assert_eq!(Utf8Str::parse_byte_slice(&[0xE2, 0x82]), Err(Utf8Error));
    // A lone continuation byte.
    assert_eq!(Utf8Str::parse_byte_slice(&[0x80]), Err(Utf8Error));
}

#[test]
fn empty_text_is_valid() {
    let wire = Utf8Str::parse_byte_slice(&[]).unwrap();
    assert_eq!(wire.as_str(), "");
    assert_eq!(wire.as_byte_slice(), Vec::<u8>::new());
}

#[test]
fn scenario_c_pair_layout() {
    assert_eq!(PairULE::width(), 6);
    assert_eq!(FlippedPairULE::width(), 6);
    let first: u16 = 0x1122;
    let second: u32 = 0x33445566;
    let pair = PairULE { first: first.as_unaligned(), second: second.as_unaligned() };
    let bytes = PairULE::as_byte_slice(&[pair]);
    assert_eq!(bytes, vec![0x22, 0x11, 0x66, 0x55, 0x44, 0x33]);
    let flipped = FlippedPairULE { second: second.as_unaligned(), first: first.as_unaligned() };
    let flipped_bytes = FlippedPairULE::as_byte_slice(&[flipped]);
    assert_eq!(flipped_bytes, vec![0x66, 0x55, 0x44, 0x33, 0x22, 0x11]);
}

#[test]
fn scenario_c_pair_parses_back() {
    let p = Pair { first: 7, second: 9 };
    let bytes = PairULE::as_byte_slice(&[p.as_unaligned()]);
    assert_eq!(bytes.len(), 6);
    let parsed = PairULE::parse_byte_slice(&bytes).unwrap();
    assert_eq!(parsed.len(), 1);
    assert_eq!(Pair::from_unaligned(&parsed[0]), p);
}

#[test]
fn compound_with_fallible_field_accepts_valid_records() {
    assert_eq!(SignedPairULE::width(), 5);
    let bytes: &[u8] = &[2, 1, 0, 0, 0, 0, 9, 0, 0, 0];
    let parsed = SignedPairULE::parse_byte_slice(bytes).unwrap();
    assert_eq!(parsed.len(), 2);
    assert_eq!(SignedPairULE::as_byte_slice(&parsed), bytes.to_vec());
}

#[test]
fn compound_with_fallible_field_rejects_bad_sign_byte() {
    let bytes: &[u8] = &[7, 1, 0, 0, 0];
    assert_eq!(SignedPairULE::parse_byte_slice(bytes), Err(SignedPairUleError::InvalidBitPattern));
    let short: &[u8] = &[2, 1, 0];
    assert_eq!(SignedPairULE::parse_byte_slice(short), Err(SignedPairUleError::InvalidLength));
}

#[test]
fn empty_buffer_parses_to_empty_slice() {
    assert_eq!(PlainOldULE4::parse_byte_slice(&[]).unwrap(), vec![]);
    assert_eq!(PlainOldULE4::as_byte_slice(&[]), Vec::<u8>::new());
}

#[test]
fn widths_are_as_declared() {
    assert_eq!(PlainOldULE2::width(), 2);
    assert_eq!(PlainOldULE4::width(), 4);
    assert_eq!(SignULE::width(), 1);
}

#[test]
fn u16_wire_bytes_are_little_endian() {
    let wire = 0xABCDu16.as_unaligned();
    assert_eq!(PlainOldULE2::as_byte_slice(&[wire]), vec![0xCD, 0xAB]);
    let parsed = PlainOldULE2::parse_byte_slice(&[0xCD, 0xAB]).unwrap();
    assert_eq!(u16::from_unaligned(&parsed[0]), 0xABCD);
}
