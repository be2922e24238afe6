//! The wire-type contracts: fixed-width and variable-width views of byte
//! buffers, and the mappings between logical values and wire values.

use vstd::arithmetic::div_mod::lemma_fundamental_div_mod;
use vstd::prelude::*;
use vstd::slice::{slice_index_get, slice_subrange};

verus! {

/// Fixed-width wire data: a type with a constant byte width, a little-endian
/// byte image, and a validity predicate over width-sized byte chunks.
///
/// Every in-memory value of an implementing type must be valid: a chunk that
/// fails [`ULE::spec_valid`] has no corresponding value, and
/// [`ULE::parse_byte_slice`] rejects any buffer containing one. The laws
/// [`ULE::lemma_bytes_wf`] and [`ULE::lemma_bytes_injective`] make the byte
/// image a bijection between values and valid chunks.
pub trait ULE: Sized {
    /// The error reported when a byte buffer is not valid for this type.
    type Error;

    /// The constant byte width of one wire value.
    spec fn spec_width() -> nat;

    /// The validity predicate over one width-sized byte chunk.
    spec fn spec_valid(chunk: Seq<u8>) -> bool;

    /// The little-endian byte image of this value.
    spec fn spec_bytes(self) -> Seq<u8>;

    /// True of an error value that reports a buffer length that is not a
    /// multiple of the width.
    spec fn spec_is_length_error(e: Self::Error) -> bool;

    /// True of an error value that reports a chunk outside the type's valid
    /// bit patterns.
    spec fn spec_is_bit_pattern_error(e: Self::Error) -> bool;

    /// A wire value occupies at least one byte.
    proof fn lemma_width_positive()
        ensures
            Self::spec_width() > 0,
    ;

    /// The byte image of every value is one valid chunk.
    proof fn lemma_bytes_wf(self)
        ensures
            self.spec_bytes().len() == Self::spec_width(),
            Self::spec_valid(self.spec_bytes()),
    ;

    /// Two values with the same byte image are the same value.
    proof fn lemma_bytes_injective(a: Self, b: Self)
        requires
            a.spec_bytes() == b.spec_bytes(),
        ensures
            a == b,
    ;

    /// The constant byte width of one wire value.
    fn width() -> (w: usize)
        ensures
            w == Self::spec_width(),
    ;

    /// Decides the validity predicate on one width-sized chunk.
    fn validate_chunk(chunk: &[u8]) -> (ok: bool)
        requires
            chunk@.len() == Self::spec_width(),
        ensures
            ok == Self::spec_valid(chunk@),
    ;

    /// Reads the unique value whose byte image is the given valid chunk.
    fn read_chunk(chunk: &[u8]) -> (r: Self)
        requires
            chunk@.len() == Self::spec_width(),
            Self::spec_valid(chunk@),
        ensures
            r.spec_bytes() == chunk@,
    ;

    /// Appends the byte image of this value to a buffer.
    fn write_to(&self, out: &mut Vec<u8>)
        ensures
            final(out)@ == old(out)@ + self.spec_bytes(),
    ;

    /// Produces the error value that reports a length mismatch.
    fn length_error() -> (e: Self::Error)
        ensures
            Self::spec_is_length_error(e),
            !Self::spec_is_bit_pattern_error(e),
    ;

    /// Produces the error value that reports an invalid bit pattern; only
    /// callable for types that have some forbidden bit pattern.
    fn bit_pattern_error() -> (e: Self::Error)
        requires
            exists|chunk: Seq<u8>| chunk.len() == Self::spec_width() && !Self::spec_valid(chunk),
        ensures
            Self::spec_is_bit_pattern_error(e),
            !Self::spec_is_length_error(e),
    ;

    /// Validates a byte buffer and decodes it as a sequence of wire values.
    ///
    /// Succeeds exactly on buffers whose length is a multiple of the width
    /// and whose chunks all satisfy the validity predicate; on success each
    /// decoded value's byte image is the corresponding chunk. On failure the
    /// error says which of the two conditions failed, length first.
    fn parse_byte_slice(bytes: &[u8]) -> (r: Result<Vec<Self>, Self::Error>)
        ensures
            r is Ok <==> (bytes@.len() % Self::spec_width() == 0 && forall|i: int|
                0 <= i < bytes@.len() / Self::spec_width() ==> Self::spec_valid(
                    #[trigger] bytes@.subrange(
                        i * Self::spec_width(),
                        i * Self::spec_width() + Self::spec_width(),
                    ),
                )),
            r matches Ok(v) ==> v@.len() == bytes@.len() / Self::spec_width() && forall|i: int|
                0 <= i < v@.len() ==> (#[trigger] v@[i]).spec_bytes() == bytes@.subrange(
                    i * Self::spec_width(),
                    i * Self::spec_width() + Self::spec_width(),
                ),
            r matches Err(e) ==> (Self::spec_is_length_error(e) <==> bytes@.len()
                % Self::spec_width() != 0),
            r matches Err(e) ==> (Self::spec_is_bit_pattern_error(e) <==> (bytes@.len()
                % Self::spec_width() == 0 && exists|i: int|
                0 <= i < bytes@.len() / Self::spec_width() && !Self::spec_valid(
                    #[trigger] bytes@.subrange(
                        i * Self::spec_width(),
                        i * Self::spec_width() + Self::spec_width(),
                    ),
                ))),
    {
        proof {
            Self::lemma_width_positive();
        }
        let w = Self::width();
        let len = bytes.len();
        if len % w != 0 {
            return Err(Self::length_error());
        }
        let n = len / w;
        proof {
            lemma_fundamental_div_mod(len as int, w as int);
            assert(w as int * n as int == n as int * w as int) by (nonlinear_arith);
        }
        let mut out: Vec<Self> = Vec::new();
        let mut k: usize = 0;
        let mut start: usize = 0;
        while k < n
            invariant
                w == Self::spec_width(),
                w > 0,
                len == bytes@.len(),
                n == bytes@.len() / Self::spec_width(),
                bytes@.len() == n * w,
                bytes@.len() % Self::spec_width() == 0,
                k <= n,
                start == k * w,
                out@.len() == k,
                forall|j: int|
                    0 <= j < k ==> (#[trigger] out@[j]).spec_bytes() == bytes@.subrange(
                        j * Self::spec_width(),
                        j * Self::spec_width() + Self::spec_width(),
                    ),
            decreases n - k,
        {
            proof {
                assert(start + w == (k + 1) * w && (k + 1) * w <= n * w) by (nonlinear_arith)
                    requires
                        start == k * w && 0 <= k < n && w > 0,
                ;
            }
            let chunk = slice_subrange(bytes, start, start + w);
            assert(chunk@ == bytes@.subrange(
                k as int * Self::spec_width(),
                k as int * Self::spec_width() + Self::spec_width(),
            ));
            if !Self::validate_chunk(chunk) {
                proof {
                    assert(chunk@.len() == Self::spec_width() && !Self::spec_valid(chunk@));
                }
                return Err(Self::bit_pattern_error());
            }
            let v = Self::read_chunk(chunk);
            out.push(v);
            k = k + 1;
            start = start + w;
        }
        proof {
            assert forall|i: int| 0 <= i < bytes@.len() / Self::spec_width() implies Self::spec_valid(
                #[trigger] bytes@.subrange(
                    i * Self::spec_width(),
                    i * Self::spec_width() + Self::spec_width(),
                ),
            ) by {
                out@[i].lemma_bytes_wf();
            }
        }
        Ok(out)
    }

    /// Decodes a byte buffer that is already known to be valid, skipping
    /// validation; the caller owes the validity that
    /// [`ULE::parse_byte_slice`] would have checked.
    ///
    /// The result is determined by the buffer alone, so repeated calls on
    /// the same buffer agree.
    fn from_byte_slice_unchecked(bytes: &[u8]) -> (r: Vec<Self>)
        requires
            bytes@.len() % Self::spec_width() == 0,
            forall|i: int|
                0 <= i < bytes@.len() / Self::spec_width() ==> Self::spec_valid(
                    #[trigger] bytes@.subrange(
                        i * Self::spec_width(),
                        i * Self::spec_width() + Self::spec_width(),
                    ),
                ),
        ensures
            r@.len() == bytes@.len() / Self::spec_width(),
            forall|i: int|
                0 <= i < r@.len() ==> (#[trigger] r@[i]).spec_bytes() == bytes@.subrange(
                    i * Self::spec_width(),
                    i * Self::spec_width() + Self::spec_width(),
                ),
    {
        proof {
            Self::lemma_width_positive();
        }
        let w = Self::width();
        let len = bytes.len();
        let n = len / w;
        proof {
            lemma_fundamental_div_mod(len as int, w as int);
            assert(w as int * n as int == n as int * w as int) by (nonlinear_arith);
        }
        let mut out: Vec<Self> = Vec::new();
        let mut k: usize = 0;
        let mut start: usize = 0;
        while k < n
            invariant
                w == Self::spec_width(),
                w > 0,
                len == bytes@.len(),
                n == bytes@.len() / Self::spec_width(),
                bytes@.len() == n * w,
                bytes@.len() % Self::spec_width() == 0,
                forall|i: int|
                    0 <= i < bytes@.len() / Self::spec_width() ==> Self::spec_valid(
                        #[trigger] bytes@.subrange(
                            i * Self::spec_width(),
                            i * Self::spec_width() + Self::spec_width(),
                        ),
                    ),
                k <= n,
                start == k * w,
                out@.len() == k,
                forall|j: int|
                    0 <= j < k ==> (#[trigger] out@[j]).spec_bytes() == bytes@.subrange(
                        j * Self::spec_width(),
                        j * Self::spec_width() + Self::spec_width(),
                    ),
            decreases n - k,
        {
            proof {
                assert(start + w == (k + 1) * w && (k + 1) * w <= n * w) by (nonlinear_arith)
                    requires
                        start == k * w && 0 <= k < n && w > 0,
                ;
            }
            let chunk = slice_subrange(bytes, start, start + w);
            assert(chunk@ == bytes@.subrange(
                k as int * Self::spec_width(),
                k as int * Self::spec_width() + Self::spec_width(),
            ));
            let v = Self::read_chunk(chunk);
            out.push(v);
            k = k + 1;
            start = start + w;
        }
        out
    }

    /// Encodes a sequence of wire values back into its byte buffer; the
    /// exact inverse of [`ULE::parse_byte_slice`].
    fn as_byte_slice(slice: &[Self]) -> (r: Vec<u8>)
        ensures
            r@.len() == slice@.len() * Self::spec_width(),
            forall|i: int|
                0 <= i < slice@.len() ==> (#[trigger] slice@[i]).spec_bytes() == r@.subrange(
                    i * Self::spec_width(),
                    i * Self::spec_width() + Self::spec_width(),
                ),
    {
        proof {
            Self::lemma_width_positive();
        }
        let w = Self::width();
        let n = slice.len();
        let mut out: Vec<u8> = Vec::new();
        let mut k: usize = 0;
        while k < n
            invariant
                w == Self::spec_width(),
                w > 0,
                n == slice@.len(),
                k <= n,
                out@.len() == k * w,
                forall|j: int|
                    0 <= j < k ==> (#[trigger] slice@[j]).spec_bytes() == out@.subrange(
                        j * Self::spec_width(),
                        j * Self::spec_width() + Self::spec_width(),
                    ),
            decreases n - k,
        {
            let ghost prev = out@;
            let v = slice_index_get(slice, k);
            proof {
                v.lemma_bytes_wf();
            }
            v.write_to(&mut out);
            proof {
                assert((k + 1) * w == k * w + w) by (nonlinear_arith);
                assert forall|j: int| 0 <= j < k + 1 implies (#[trigger] slice@[j]).spec_bytes()
                    == out@.subrange(
                    j * Self::spec_width(),
                    j * Self::spec_width() + Self::spec_width(),
                ) by {
                    assert((j + 1) * w == j * w + w && j * w >= 0 && (j < k ==> j * w + w <= k * w))
                        by (nonlinear_arith)
                        requires
                            w > 0 && 0 <= j <= k,
                    ;
                    if j < k {
                        assert(out@.subrange(
                            j * Self::spec_width(),
                            j * Self::spec_width() + Self::spec_width(),
                        ) =~= prev.subrange(
                            j * Self::spec_width(),
                            j * Self::spec_width() + Self::spec_width(),
                        ));
                    } else {
                        assert(out@.subrange(
                            j * Self::spec_width(),
                            j * Self::spec_width() + Self::spec_width(),
                        ) =~= v.spec_bytes());
                    }
                }
            }
            k = k + 1;
        }
        out
    }
}

/// True when the buffer length is an exact multiple of the wire width of
/// `T`.
pub open spec fn ule_len_ok<T: ULE>(bytes: Seq<u8>) -> bool {
    bytes.len() % T::spec_width() == 0
}

/// The number of complete width-sized chunks in the buffer.
pub open spec fn ule_count<T: ULE>(bytes: Seq<u8>) -> nat {
    bytes.len() / T::spec_width()
}

/// The `i`-th width-sized chunk of the buffer.
pub open spec fn ule_chunk<T: ULE>(bytes: Seq<u8>, i: int) -> Seq<u8> {
    bytes.subrange(i * T::spec_width(), i * T::spec_width() + T::spec_width())
}

/// True when every complete chunk of the buffer satisfies the validity
/// predicate of `T`.
pub open spec fn ule_chunks_valid<T: ULE>(bytes: Seq<u8>) -> bool {
    forall|i: int| 0 <= i < ule_count::<T>(bytes) ==> T::spec_valid(#[trigger] ule_chunk::<T>(bytes, i))
}

/// A byte buffer is a valid sequence of `T` wire values when its length is
/// a multiple of the width and every chunk is valid; exactly the buffers
/// that [`ULE::parse_byte_slice`] accepts.
pub open spec fn valid_ule_bytes<T: ULE>(bytes: Seq<u8>) -> bool {
    ule_len_ok::<T>(bytes) && ule_chunks_valid::<T>(bytes)
}

/// The decoding relation: `v` is the sequence of wire values that the
/// buffer holds, chunk by chunk. On a valid buffer exactly one `v`
/// satisfies it ([`lemma_decoding_unique`]); it is what
/// [`ULE::parse_byte_slice`] and [`ULE::from_byte_slice_unchecked`] ensure
/// of their results.
pub open spec fn is_decoding_of<T: ULE>(bytes: Seq<u8>, v: Seq<T>) -> bool {
    v.len() == ule_count::<T>(bytes) && forall|i: int|
        0 <= i < v.len() ==> (#[trigger] v[i]).spec_bytes() == ule_chunk::<T>(bytes, i)
}

/// The concatenation of the byte images of a sequence of wire values, in
/// order; what [`ULE::as_byte_slice`] returns.
pub open spec fn encode_ule<T: ULE>(s: Seq<T>) -> Seq<u8> {
    s.map_values(|v: T| v.spec_bytes()).flatten()
}

/// One step of unfolding the encoding of a non-empty sequence.
proof fn lemma_encode_ule_unfold<T: ULE>(s: Seq<T>)
    requires
        s.len() > 0,
    ensures
        encode_ule::<T>(s) == s[0].spec_bytes() + encode_ule::<T>(s.drop_first()),
{
    let m = s.map_values(|v: T| v.spec_bytes());
    reveal_with_fuel(Seq::<_>::flatten, 2);
    assert(m.drop_first() =~= s.drop_first().map_values(|v: T| v.spec_bytes()));
    assert(m.flatten() == m.first() + m.drop_first().flatten());
}

/// The encoding of the empty sequence is the empty buffer.
proof fn lemma_encode_ule_empty<T: ULE>(s: Seq<T>)
    requires
        s.len() == 0,
    ensures
        encode_ule::<T>(s) == Seq::<u8>::empty(),
{
    let m = s.map_values(|v: T| v.spec_bytes());
    reveal_with_fuel(Seq::<_>::flatten, 1);
    assert(m.len() == 0);
    assert(m.flatten() =~= Seq::<u8>::empty());
}

/// The encoded buffer is as long as the values times the width.
pub proof fn lemma_encode_ule_len<T: ULE>(s: Seq<T>)
    ensures
        encode_ule::<T>(s).len() == s.len() * T::spec_width(),
    decreases s.len(),
{
    if s.len() == 0 {
        lemma_encode_ule_empty::<T>(s);
    } else {
        lemma_encode_ule_unfold::<T>(s);
        s[0].lemma_bytes_wf();
        lemma_encode_ule_len::<T>(s.drop_first());
        assert(s.len() * T::spec_width() == T::spec_width() + (s.len() - 1) * T::spec_width())
            by (nonlinear_arith);
    }
}

/// The `i`-th chunk of an encoded buffer is the byte image of the `i`-th
/// value.
pub proof fn lemma_encode_ule_chunk<T: ULE>(s: Seq<T>, i: int)
    requires
        0 <= i < s.len(),
    ensures
        ule_chunk::<T>(encode_ule::<T>(s), i) == s[i].spec_bytes(),
    decreases i,
{
    let w = T::spec_width() as int;
    let bytes = encode_ule::<T>(s);
    T::lemma_width_positive();
    lemma_encode_ule_len::<T>(s);
    lemma_encode_ule_unfold::<T>(s);
    s[i].lemma_bytes_wf();
    if i == 0 {
        s[0].lemma_bytes_wf();
        lemma_encode_ule_len::<T>(s.drop_first());
        assert(w <= s.len() * w) by (nonlinear_arith)
            requires
                1 <= s.len() && w > 0,
        ;
        assert(0 * T::spec_width() == 0);
        assert(ule_chunk::<T>(bytes, 0) =~= s[0].spec_bytes());
    } else {
        lemma_encode_ule_chunk::<T>(s.drop_first(), i - 1);
        s[0].lemma_bytes_wf();
        lemma_encode_ule_len::<T>(s.drop_first());
        assert((i - 1) * w == i * w - w) by (nonlinear_arith);
        assert(w <= i * w && i * w + w <= s.len() * w) by (nonlinear_arith)
            requires
                1 <= i && i + 1 <= s.len() && w > 0,
        ;
        assert((s.len() - 1) * w == s.len() * w - w) by (nonlinear_arith);
        assert(ule_chunk::<T>(encode_ule::<T>(s.drop_first()), i - 1) =~= ule_chunk::<T>(bytes, i));
    }
}

/// Validation soundness, first half: a buffer produced by encoding is
/// always accepted by validation.
pub proof fn lemma_encode_ule_valid<T: ULE>(s: Seq<T>)
    ensures
        valid_ule_bytes::<T>(encode_ule::<T>(s)),
        ule_count::<T>(encode_ule::<T>(s)) == s.len(),
{
    let bytes = encode_ule::<T>(s);
    let w = T::spec_width();
    T::lemma_width_positive();
    lemma_encode_ule_len::<T>(s);
    assert(bytes.len() % w == 0 && bytes.len() / w == s.len()) by (nonlinear_arith)
        requires
            w > 0,
            bytes.len() == s.len() * w,
    ;
    assert forall|i: int| 0 <= i < ule_count::<T>(bytes) implies T::spec_valid(
        #[trigger] ule_chunk::<T>(bytes, i),
    ) by {
        lemma_encode_ule_chunk::<T>(s, i);
        s[i].lemma_bytes_wf();
    }
}

/// On any buffer, at most one sequence of wire values is its decoding.
pub proof fn lemma_decoding_unique<T: ULE>(bytes: Seq<u8>, v1: Seq<T>, v2: Seq<T>)
    requires
        is_decoding_of::<T>(bytes, v1),
        is_decoding_of::<T>(bytes, v2),
    ensures
        v1 == v2,
{
    assert forall|i: int| 0 <= i < v1.len() implies v1[i] == v2[i] by {
        T::lemma_bytes_injective(v1[i], v2[i]);
    }
    assert(v1 =~= v2);
}

/// Validation soundness: encoding any sequence of wire values yields a
/// buffer that validation accepts and whose one decoding is the original
/// sequence.
pub proof fn lemma_validation_soundness<T: ULE>(s: Seq<T>, v: Seq<T>)
    requires
        is_decoding_of::<T>(encode_ule::<T>(s), v),
    ensures
        valid_ule_bytes::<T>(encode_ule::<T>(s)),
        v == s,
{
    lemma_encode_ule_valid::<T>(s);
    assert forall|i: int| 0 <= i < s.len() implies s[i].spec_bytes() == ule_chunk::<T>(
        encode_ule::<T>(s),
        i,
    ) by {
        lemma_encode_ule_chunk::<T>(s, i);
    }
    lemma_decoding_unique::<T>(encode_ule::<T>(s), v, s);
}

/// A logical type with a one-to-one mapping to a fixed-width wire type.
///
/// [`AsULE::spec_wire_bytes`] is the wire image of a logical value; the
/// four laws make it a bijection between logical values and wire values,
/// so the two conversions are exact inverses ([`lemma_logical_round_trip`]
/// and [`lemma_wire_round_trip`]).
pub trait AsULE: Sized {
    /// The wire type corresponding to `Self`.
    type ULE: ULE;

    /// The little-endian wire byte image of this logical value.
    spec fn spec_wire_bytes(self) -> Seq<u8>;

    /// The wire image of every logical value is one valid chunk.
    proof fn lemma_wire_bytes_wf(self)
        ensures
            self.spec_wire_bytes().len() == <Self::ULE as ULE>::spec_width(),
            <Self::ULE as ULE>::spec_valid(self.spec_wire_bytes()),
    ;

    /// Two logical values with the same wire image are the same value.
    proof fn lemma_wire_bytes_injective(a: Self, b: Self)
        requires
            a.spec_wire_bytes() == b.spec_wire_bytes(),
        ensures
            a == b,
    ;

    /// Every logical value has a wire value carrying its image.
    proof fn lemma_wire_value_exists(self)
        ensures
            exists|w: Self::ULE| w.spec_bytes() == self.spec_wire_bytes(),
    ;

    /// Every wire value is the image of some logical value.
    proof fn lemma_logical_value_exists(w: Self::ULE)
        ensures
            exists|x: Self| x.spec_wire_bytes() == w.spec_bytes(),
    ;

    /// Converts to the wire value, normalizing native byte order to
    /// little-endian; always succeeds.
    fn as_unaligned(&self) -> (r: Self::ULE)
        ensures
            r.spec_bytes() == self.spec_wire_bytes(),
    ;

    /// Converts from the wire value, normalizing little-endian to native
    /// byte order; always succeeds, because every in-memory wire value has
    /// already passed validation.
    fn from_unaligned(unaligned: &Self::ULE) -> (r: Self)
        ensures
            r.spec_wire_bytes() == unaligned.spec_bytes(),
    ;
}

/// The wire value that encodes a logical value: the unique `T::ULE` whose
/// byte image is `x`'s wire image. What [`AsULE::as_unaligned`] returns.
pub open spec fn to_wire_of<T: AsULE>(x: T) -> <T as AsULE>::ULE {
    choose|w: <T as AsULE>::ULE| w.spec_bytes() == x.spec_wire_bytes()
}

/// The logical value that a wire value decodes to: the unique `T` whose
/// wire image is `w`'s byte image. What [`AsULE::from_unaligned`] returns.
pub open spec fn from_wire_of<T: AsULE>(w: <T as AsULE>::ULE) -> T {
    choose|x: T| x.spec_wire_bytes() == w.spec_bytes()
}

/// A wire value whose byte image is `x`'s wire image is `to_wire_of(x)`.
pub proof fn lemma_to_wire_of_is<T: AsULE>(x: T, w: <T as AsULE>::ULE)
    requires
        w.spec_bytes() == x.spec_wire_bytes(),
    ensures
        to_wire_of::<T>(x) == w,
{
    let c = to_wire_of::<T>(x);
    assert(c.spec_bytes() == x.spec_wire_bytes());
    <T as AsULE>::ULE::lemma_bytes_injective(c, w);
}

/// A logical value whose wire image is `w`'s byte image is
/// `from_wire_of(w)`.
pub proof fn lemma_from_wire_of_is<T: AsULE>(w: <T as AsULE>::ULE, x: T)
    requires
        x.spec_wire_bytes() == w.spec_bytes(),
    ensures
        from_wire_of::<T>(w) == x,
{
    let c = from_wire_of::<T>(w);
    assert(c.spec_wire_bytes() == w.spec_bytes());
    T::lemma_wire_bytes_injective(c, x);
}

/// Round trip, logical side: converting any logical value to its wire
/// value and back yields the same value.
pub proof fn lemma_logical_round_trip<T: AsULE>(x: T)
    ensures
        from_wire_of::<T>(to_wire_of::<T>(x)) == x,
{
    T::lemma_wire_value_exists(x);
    let w = to_wire_of::<T>(x);
    assert(w.spec_bytes() == x.spec_wire_bytes());
    lemma_from_wire_of_is::<T>(w, x);
}

/// Round trip, wire side: converting any wire value to its logical value
/// and back yields the same value.
pub proof fn lemma_wire_round_trip<T: AsULE>(w: <T as AsULE>::ULE)
    ensures
        to_wire_of::<T>(from_wire_of::<T>(w)) == w,
{
    T::lemma_logical_value_exists(w);
    let x = from_wire_of::<T>(w);
    assert(x.spec_wire_bytes() == w.spec_bytes());
    lemma_to_wire_of_is::<T>(x, w);
}

/// Relies on u16::to_ne_bytes: the native-endian byte image of `1u16`
/// starts with 1 exactly on a little-endian target. Nothing portable can
/// be promised of the answer, so the contract is empty and callers state
/// what holds in either case.
#[verifier::external_body]
fn native_is_little_endian() -> (r: bool) {
    u16::to_ne_bytes(1u16)[0] == 1u8
}

/// The element-wise half of the fast path: converts a slice of logical
/// values to their wire values when `little_endian` says the target's
/// native layout already agrees with the wire, and declines otherwise so
/// that the caller falls back to converting element by element itself.
pub fn slice_to_unaligned<T: AsULE>(little_endian: bool, slice: &[T]) -> (r: Option<
    Vec<<T as AsULE>::ULE>,
>)
    ensures
        little_endian <==> r is Some,
        r matches Some(v) ==> v@.len() == slice@.len() && forall|i: int|
            0 <= i < slice@.len() ==> (#[trigger] v@[i]).spec_bytes()
                == slice@[i].spec_wire_bytes(),
{
    if !little_endian {
        return None;
    }
    let mut out: Vec<<T as AsULE>::ULE> = Vec::new();
    let mut k: usize = 0;
    while k < slice.len()
        invariant
            k <= slice@.len(),
            out@.len() == k,
            forall|j: int|
                0 <= j < k ==> (#[trigger] out@[j]).spec_bytes() == slice@[j].spec_wire_bytes(),
        decreases slice@.len() - k,
    {
        let v = slice_index_get(slice, k);
        out.push(v.as_unaligned());
        k = k + 1;
    }
    Some(out)
}

/// A logical type whose native in-memory byte image already equals its
/// wire image on little-endian targets, for every representable value.
///
/// The marker is a capability, not an operation: it lets
/// [`SliceAsULE::slice_as_unaligned`] succeed on little-endian targets.
/// Declaring it is a claim about the type's native layout that the
/// implementer owes; nothing here checks it at run time.
pub trait EqULE: AsULE {

}

/// Whole-slice conversion from logical values to wire values, available
/// when the target's byte order permits it.
pub trait SliceAsULE: AsULE + Sized {
    /// Converts `&[Self]` to its wire values if possible.
    ///
    /// In general, this returns `Some` on little-endian targets and `None`
    /// on big-endian targets; callers must always handle `None` by falling
    /// back to element-wise [`AsULE::as_unaligned`].
    fn slice_as_unaligned(slice: &[Self]) -> (r: Option<Vec<<Self as AsULE>::ULE>>)
        ensures
            r matches Some(v) ==> v@.len() == slice@.len() && forall|i: int|
                0 <= i < slice@.len() ==> (#[trigger] v@[i]).spec_bytes()
                    == slice@[i].spec_wire_bytes(),
    ;
}

impl<T: EqULE> SliceAsULE for T {
    fn slice_as_unaligned(slice: &[T]) -> (r: Option<Vec<<T as AsULE>::ULE>>) {
        slice_to_unaligned(native_is_little_endian(), slice)
    }
}

/// Variable-width wire data: a type whose byte span length is determined
/// by its content, viewed over a whole buffer at a time.
///
/// The same three operations as [`ULE`], over a single value instead of a
/// slice.
pub trait VarULE: Sized {
    /// The error reported when a byte buffer is not one well-formed value.
    type Error;

    /// The validity predicate over the whole byte span.
    spec fn spec_valid(bytes: Seq<u8>) -> bool;

    /// The exact backing byte span of this value.
    spec fn spec_bytes(self) -> Seq<u8>;

    /// The byte span of every value is valid.
    proof fn lemma_bytes_wf(self)
        ensures
            Self::spec_valid(self.spec_bytes()),
    ;

    /// Validates that the entire buffer is exactly one well-formed value
    /// and decodes it; the decoded value's byte span is the buffer itself.
    fn parse_byte_slice(bytes: &[u8]) -> (r: Result<Self, Self::Error>)
        ensures
            r is Ok <==> Self::spec_valid(bytes@),
            r matches Ok(v) ==> v.spec_bytes() == bytes@,
    ;

    /// Decodes a byte buffer that is already known to be valid, skipping
    /// validation; the caller owes the validity that
    /// [`VarULE::parse_byte_slice`] would have checked.
    ///
    /// The result's byte span is determined by the buffer alone, so
    /// repeated calls on the same buffer agree.
    fn from_byte_slice_unchecked(bytes: &[u8]) -> (r: Self)
        requires
            Self::spec_valid(bytes@),
        ensures
            r.spec_bytes() == bytes@,
    ;

    /// Returns the exact backing byte span; the inverse of
    /// [`VarULE::parse_byte_slice`].
    fn as_byte_slice(&self) -> (r: Vec<u8>)
        ensures
            r@ == self.spec_bytes(),
    ;
}

/// A logical type with a one-to-one mapping to a variable-width wire type;
/// the variable-width analogue of [`AsULE`].
pub trait AsVarULE: Sized {
    /// The variable-width wire type corresponding to `Self`.
    type VarULE: VarULE;

    /// The wire byte span that encodes this logical value.
    spec fn spec_wire_bytes(self) -> Seq<u8>;

    /// The wire span of every logical value is valid.
    proof fn lemma_wire_bytes_wf(self)
        ensures
            <Self::VarULE as VarULE>::spec_valid(self.spec_wire_bytes()),
    ;

    /// Converts to the wire value; always succeeds.
    fn as_unaligned(&self) -> (r: Self::VarULE)
        ensures
            r.spec_bytes() == self.spec_wire_bytes(),
    ;

    /// Converts from the wire value to an owned logical value; may
    /// allocate, and always succeeds, because every in-memory wire value
    /// has already passed validation.
    fn from_unaligned(unaligned: &Self::VarULE) -> (r: Self)
        ensures
            r.spec_wire_bytes() == unaligned.spec_bytes(),
    ;
}

} // verus!
