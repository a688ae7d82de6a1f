//! The extension-field curve group and its wire codec.
//!
//! A point of this group travels as 96 bytes: the curve library's
//! canonical compressed serialization, reversed and with the flag bits
//! remapped as `crate::flags` describes. The executable point types carry
//! the library's representation; their view is the canonical little-endian
//! serialization, which every contract speaks of.
use ark_bls12_381::{Fq2, G2Affine, G2Projective};
use ark_ec::{AffineCurve, ProjectiveCurve};
use ark_ff::{PrimeField, Zero};
use ark_serialize::{CanonicalDeserializeWithFlags, CanonicalSerialize, SWFlags};
use vstd::prelude::*;

use crate::errors::CeremonyError;
use crate::flags::{
    ark_flag_exec, ark_of_wire, lemma_ark_round_trip, lemma_wire_round_trip, wire_flag_byte,
    wire_flag_exec, wire_of_ark,
};
use crate::hexstr::{
    decode_hex_digits, encode_hex_digits, hex_decoded, hex_encoded, hex_pairs_ok,
    lemma_hex_round_trip,
};
use crate::scalar::Scalar;

verus! {

/// The curve library's affine point, held opaquely: Verus refuses the
/// declaration of the generic point type, whose parameter is bound by an
/// outside trait.
#[verifier::external_body]
struct G2AffineRaw(G2Affine);

/// The curve library's projective point, held opaquely for the same
/// reason.
#[verifier::external_body]
struct G2ProjRaw(G2Projective);

/// Whether the curve library accepts a 96-byte string as the canonical
/// compressed serialization of a point of this group: the coordinate must
/// be a canonical field element, the flag combination legal, and the
/// coordinate must solve the curve equation (or the string must be the
/// canonical infinity form). Membership in the prime-order subgroup is not
/// part of this predicate.
pub uninterp spec fn g2_accepts(bytes: Seq<u8>) -> bool;

/// The canonical serialization of the product of the point with the given
/// serialization by the scalar with the given canonical value.
pub uninterp spec fn g2_mul_repr(point: Seq<u8>, scalar: int) -> Seq<u8>;

/// Whether the point with the given canonical serialization lies in the
/// prime-order subgroup.
pub uninterp spec fn g2_subgroup(point: Seq<u8>) -> bool;

/// The canonical serialization of the point at infinity: a zero
/// coordinate with the infinity flag.
pub open spec fn g2_ark_infinity() -> Seq<u8> {
    Seq::new(96, |i: int| if i == 95 { 0x40u8 } else { 0u8 })
}

/// The wire form of the point at infinity.
pub open spec fn g2_wire_infinity() -> Seq<u8> {
    Seq::new(96, |i: int| if i == 0 { 0xc0u8 } else { 0u8 })
}

/// The wire encoding of the fixed generator of this group.
pub open spec fn g2_generator_wire() -> Seq<u8> {
    seq![
        0x93u8, 0xe0, 0x2b, 0x60, 0x52, 0x71, 0x9f, 0x60, 0x7d, 0xac, 0xd3, 0xa0,
        0x88, 0x27, 0x4f, 0x65, 0x59, 0x6b, 0xd0, 0xd0, 0x99, 0x20, 0xb6, 0x1a,
        0xb5, 0xda, 0x61, 0xbb, 0xdc, 0x7f, 0x50, 0x49, 0x33, 0x4c, 0xf1, 0x12,
        0x13, 0x94, 0x5d, 0x57, 0xe5, 0xac, 0x7d, 0x05, 0x5d, 0x04, 0x2b, 0x7e,
        0x02, 0x4a, 0xa2, 0xb2, 0xf0, 0x8f, 0x0a, 0x91, 0x26, 0x08, 0x05, 0x27,
        0x2d, 0xc5, 0x10, 0x51, 0xc6, 0xe4, 0x7a, 0xd4, 0xfa, 0x40, 0x3b, 0x02,
        0xb4, 0x51, 0x0b, 0x64, 0x7a, 0xe3, 0xd1, 0x77, 0x0b, 0xac, 0x03, 0x26,
        0xa8, 0x05, 0xbb, 0xef, 0xd4, 0x80, 0x56, 0xc8, 0xc1, 0x21, 0xbd, 0xb8,
    ]
}

/// A valid canonical serialization: 96 bytes whose flag byte has bit 5
/// clear, the infinity flag only on the canonical infinity form, and which
/// the curve library accepts.
pub open spec fn g2_repr_valid(r: Seq<u8>) -> bool {
    &&& r.len() == 96
    &&& r[95] & 0x20 == 0
    &&& (r[95] & 0x40 != 0 ==> r == g2_ark_infinity())
    &&& g2_accepts(r)
}

/// A decodable wire value: 96 bytes with the compressed-form marker, the
/// infinity flag only on the canonical infinity form, and a canonical
/// serialization the curve library accepts.
pub open spec fn g2_wire_ok(w: Seq<u8>) -> bool {
    &&& w.len() == 96
    &&& w[0] & 0x80 == 0x80
    &&& (w[0] & 0x40 != 0 ==> w == g2_wire_infinity())
    &&& g2_accepts(ark_of_wire(w))
}

/// An affine point of this group, on the curve by construction. Its view
/// is its canonical little-endian serialization.
pub struct G2Point {
    inner: G2AffineRaw,
    repr: Ghost<Seq<u8>>,
}

impl View for G2Point {
    type V = Seq<u8>;

    closed spec fn view(&self) -> Seq<u8> {
        self.repr@
    }
}

/// A projective point of this group, produced by scalar multiplication
/// and consumed by the conversions back to affine form. Its view is the
/// canonical serialization of its affine form.
pub struct G2Proj {
    inner: G2ProjRaw,
    repr: Ghost<Seq<u8>>,
}

impl View for G2Proj {
    type V = Seq<u8>;

    closed spec fn view(&self) -> Seq<u8> {
        self.repr@
    }
}

impl G2Point {
    #[verifier::type_invariant]
    spec fn wf(self) -> bool {
        g2_repr_valid(self.repr@)
    }

    /// Relies on GroupAffine::prime_subgroup_generator: the fixed
    /// generator of the prime-order subgroup, whose compressed form is the
    /// well-known constant that `g2_generator_wire` renders on the wire.
    #[verifier::external_body]
    pub fn generator() -> (p: G2Point)
        ensures
            p@ == ark_of_wire(g2_generator_wire()),
            g2_repr_valid(p@),
    {
        G2Point { inner: G2AffineRaw(G2Affine::prime_subgroup_generator()), repr: Ghost(arbitrary()) }
    }

    /// Relies on CanonicalSerialize::serialize for GroupAffine: writes the
    /// point's canonical compressed form, 96 bytes, which is exactly the
    /// point's view.
    #[verifier::external_body]
    fn serialize_bytes(&self) -> (b: Vec<u8>)
        ensures
            b@ == self@,
    {
        let mut buf = [0u8; 96];
        self.inner.0.serialize(&mut buf[..]).expect("a 96-byte buffer holds a compressed point");
        buf.to_vec()
    }

    /// Relies on GroupAffine::is_in_correct_subgroup_assuming_on_curve:
    /// membership of the point in the prime-order subgroup.
    #[verifier::external_body]
    pub fn is_in_subgroup(&self) -> (r: bool)
        ensures
            r == g2_subgroup(self@),
    {
        self.inner.0.is_in_correct_subgroup_assuming_on_curve()
    }

    /// Relies on AffineCurve::mul: multiplication of the point by the
    /// scalar, in projective form. Multiplying by the scalar one returns
    /// the point itself, and the result's serialization is again a valid
    /// canonical form.
    #[verifier::external_body]
    pub fn mul_scalar(&self, s: &Scalar) -> (q: G2Proj)
        ensures
            q@ == g2_mul_repr(self@, s@),
            s@ == 1 ==> q@ == self@,
            g2_repr_valid(q@),
    {
        G2Proj { inner: G2ProjRaw(self.inner.0.mul(s.raw().into_repr())), repr: Ghost(arbitrary()) }
    }

    /// Encodes the point into its wire form.
    pub fn encode(&self) -> (w: G2)
        ensures
            w@ == wire_of_ark(self@),
            g2_wire_ok(w@),
    {
        proof {
            use_type_invariant(self);
        }
        let b = self.serialize_bytes();
        let mut bytes: Vec<u8> = Vec::new();
        bytes.push(wire_flag_exec(b[95]));
        let mut i: usize = 1;
        while i < 96
            invariant
                1 <= i <= 96,
                b@.len() == 96,
                bytes@.len() == i,
                bytes@[0] == wire_flag_byte(b@[95]),
                forall|j: int| 1 <= j < i ==> bytes@[j] == b@[95 - j],
            decreases 96 - i,
        {
            bytes.push(b[95 - i]);
            i = i + 1;
        }
        proof {
            assert(bytes@ =~= wire_of_ark(self@));
            lemma_wire_round_trip(self@);
            if bytes@[0] & 0x40 != 0 {
                assert(self@[95] & 0x40 != 0);
                lemma_infinity_forms();
            }
        }
        G2 { bytes }
    }
}

impl G2Proj {
    #[verifier::type_invariant]
    spec fn wf(self) -> bool {
        g2_repr_valid(self.repr@)
    }

    /// Relies on ProjectiveCurve::into_affine: the affine form of the
    /// point, with the same, still valid, canonical serialization.
    #[verifier::external_body]
    pub fn to_affine(&self) -> (q: G2Point)
        ensures
            q@ == self@,
            g2_repr_valid(q@),
    {
        G2Point { inner: G2AffineRaw(self.inner.0.into_affine()), repr: Ghost(arbitrary()) }
    }
}

/// Relies on Fq2::deserialize_with_flags and GroupAffine::get_point_from_x,
/// the two steps of the curve library's compressed deserialization, with
/// the subgroup test left to a separate call: the coordinate is read and
/// checked canonical, the flag combination checked legal, and the point
/// reconstructed on the curve. Accepted bytes re-serialize to themselves,
/// which the precondition on the infinity flag keeps true.
#[verifier::external_body]
fn g2_read(b: &[u8]) -> (r: Result<G2Point, CeremonyError>)
    requires
        b@.len() == 96,
        b@[95] & 0x40 != 0 ==> b@ == g2_ark_infinity(),
    ensures
        r is Ok <==> g2_accepts(b@),
        r matches Ok(p) ==> p@ == b@,
        r matches Ok(p) ==> g2_repr_valid(p@),
        r matches Err(e) ==> e == CeremonyError::PointDecodeError,
{
    let (x, flags) = match Fq2::deserialize_with_flags::<_, SWFlags>(b) {
        Ok(v) => v,
        Err(_) => return Err(CeremonyError::PointDecodeError),
    };
    let greatest = match flags {
        SWFlags::Infinity => {
            return Ok(G2Point { inner: G2AffineRaw(G2Affine::zero()), repr: Ghost(arbitrary()) });
        },
        SWFlags::PositiveY => true,
        SWFlags::NegativeY => false,
    };
    match G2Affine::get_point_from_x(x, greatest) {
        Some(p) => Ok(G2Point { inner: G2AffineRaw(p), repr: Ghost(arbitrary()) }),
        None => Err(CeremonyError::PointDecodeError),
    }
}

/// The canonical infinity forms translate into each other.
pub proof fn lemma_infinity_forms()
    ensures
        wire_of_ark(g2_ark_infinity()) == g2_wire_infinity(),
        ark_of_wire(g2_wire_infinity()) == g2_ark_infinity(),
{
    assert((((0x40u8 & 0x5f) | ((0x40u8 & 0x80) >> 2)) | 0x80) == 0xc0u8) by (bit_vector);
    assert((((0xc0u8 & 0x1f) | ((0xc0u8 & 0x20) << 2)) | (0xc0u8 & 0x40)) == 0x40u8)
        by (bit_vector);
    assert(wire_of_ark(g2_ark_infinity()) =~= g2_wire_infinity());
    assert(ark_of_wire(g2_wire_infinity()) =~= g2_ark_infinity());
}

/// A point of this group in its wire form: 96 bytes, most-significant
/// first, with the flag bits of the wire convention. Its view is the byte
/// string.
#[derive(Debug)]
pub struct G2 {
    bytes: Vec<u8>,
}

impl View for G2 {
    type V = Seq<u8>;

    closed spec fn view(&self) -> Seq<u8> {
        self.bytes@
    }
}

impl G2 {
    #[verifier::type_invariant]
    spec fn wf(self) -> bool {
        self.bytes@.len() == 96
    }

    /// Wraps a byte string as a wire value; rejects any other length.
    pub fn new(bytes: Vec<u8>) -> (r: Result<G2, CeremonyError>)
        ensures
            r is Ok <==> bytes@.len() == 96,
            r matches Ok(g) ==> g@ == bytes@,
            r matches Err(e) ==> e == CeremonyError::ValidationError,
    {
        if bytes.len() == 96 {
            Ok(G2 { bytes })
        } else {
            Err(CeremonyError::ValidationError)
        }
    }

    /// The wire bytes.
    pub fn to_bytes(&self) -> (r: &Vec<u8>)
        ensures
            r@ == self@,
    {
        &self.bytes
    }

    /// Decodes the wire value into a point, verifying that the flag
    /// combination is legal and that the coordinate denotes a point on the
    /// curve; subgroup membership is checked separately.
    pub fn decode(&self) -> (r: Result<G2Point, CeremonyError>)
        ensures
            r is Ok <==> g2_wire_ok(self@),
            r matches Ok(p) ==> p@ == ark_of_wire(self@) && g2_repr_valid(p@),
            r matches Err(e) ==> e == CeremonyError::PointDecodeError,
    {
        proof {
            use_type_invariant(self);
        }
        let b0 = self.bytes[0];
        if b0 & 0x80 != 0x80 {
            return Err(CeremonyError::PointDecodeError);
        }
        if b0 & 0x40 != 0 {
            if b0 != 0xc0 {
                proof {
                    assert(g2_wire_infinity()[0] == 0xc0);
                }
                return Err(CeremonyError::PointDecodeError);
            }
            let mut i: usize = 1;
            while i < 96
                invariant
                    1 <= i <= 96,
                    self@.len() == 96,
                    self@[0] & 0x40 != 0,
                    forall|j: int| 1 <= j < i ==> self@[j] == 0,
                decreases 96 - i,
            {
                if self.bytes[i] != 0 {
                    proof {
                        assert(g2_wire_infinity()[i as int] == 0);
                    }
                    return Err(CeremonyError::PointDecodeError);
                }
                i = i + 1;
            }
            proof {
                assert(self@ =~= g2_wire_infinity());
            }
        }
        let mut ark: Vec<u8> = Vec::new();
        let mut i: usize = 0;
        while i < 95
            invariant
                0 <= i <= 95,
                self@.len() == 96,
                ark@.len() == i,
                forall|j: int| 0 <= j < i ==> ark@[j] == self@[95 - j],
            decreases 95 - i,
        {
            ark.push(self.bytes[95 - i]);
            i = i + 1;
        }
        ark.push(ark_flag_exec(b0));
        proof {
            assert(ark@ =~= ark_of_wire(self@));
            lemma_ark_round_trip(self@);
            if self@[0] & 0x40 != 0 {
                lemma_infinity_forms();
            }
        }
        g2_read(ark.as_slice())
    }

    /// Renders the wire value as a `0x`-prefixed lower-case hexadecimal
    /// string of 194 ASCII bytes.
    pub fn to_hex(&self) -> (r: Vec<u8>)
        ensures
            r@ == seq![0x30u8, 0x78u8] + hex_encoded(self@),
            r@.len() == 194,
    {
        proof {
            use_type_invariant(self);
        }
        let mut r: Vec<u8> = Vec::new();
        r.push(0x30);
        r.push(0x78);
        let mut digits = encode_hex_digits(self.bytes.as_slice());
        r.append(&mut digits);
        proof {
            assert(r@ =~= seq![0x30u8, 0x78u8] + hex_encoded(self@));
        }
        r
    }

    /// Parses a `0x`-prefixed hexadecimal string into a wire value;
    /// `None` exactly on malformed input.
    pub fn from_hex(s: &[u8]) -> (r: Option<G2>)
        ensures
            r is Some <==> g2_hex_ok(s@),
            r matches Some(g) ==> g@ == hex_decoded(s@.subrange(2, s@.len() as int)),
    {
        if s.len() != 194 {
            return None;
        }
        if s[0] != 0x30 || s[1] != 0x78 {
            return None;
        }
        let mut digits: Vec<u8> = Vec::new();
        let mut i: usize = 2;
        while i < 194
            invariant
                2 <= i <= 194,
                s@.len() == 194,
                digits@.len() == i - 2,
                forall|j: int| 0 <= j < i - 2 ==> digits@[j] == s@[j + 2],
            decreases 194 - i,
        {
            digits.push(s[i]);
            i = i + 1;
        }
        proof {
            assert(digits@ =~= s@.subrange(2, 194));
        }
        match decode_hex_digits(digits.as_slice()) {
            Some(v) => Some(G2 { bytes: v }),
            None => None,
        }
    }
}

/// A parsable hexadecimal rendering of a wire value: `0x`, then exactly
/// 192 hexadecimal digits.
pub open spec fn g2_hex_ok(s: Seq<u8>) -> bool {
    &&& s.len() == 194
    &&& s[0] == 0x30
    &&& s[1] == 0x78
    &&& hex_pairs_ok(s.subrange(2, s.len() as int))
}

/// Round trip: the wire encoding of any valid point is decodable, and
/// decoding it recovers the point's canonical serialization exactly.
pub proof fn lemma_g2_round_trip(r: Seq<u8>)
    requires
        g2_repr_valid(r),
    ensures
        g2_wire_ok(wire_of_ark(r)),
        ark_of_wire(wire_of_ark(r)) == r,
{
    lemma_wire_round_trip(r);
    if wire_of_ark(r)[0] & 0x40 != 0 {
        assert(r[95] & 0x40 != 0);
        lemma_infinity_forms();
    }
}

/// Hexadecimal round trip: rendering a wire value and parsing it back
/// recovers the same bytes.
pub proof fn lemma_g2_hex_round_trip(b: Seq<u8>)
    requires
        b.len() == 96,
    ensures
        g2_hex_ok(seq![0x30u8, 0x78u8] + hex_encoded(b)),
        hex_decoded((seq![0x30u8, 0x78u8] + hex_encoded(b)).subrange(
            2,
            (seq![0x30u8, 0x78u8] + hex_encoded(b)).len() as int,
        )) == b,
{
    lemma_hex_round_trip(b);
    let s = seq![0x30u8, 0x78u8] + hex_encoded(b);
    assert(s.subrange(2, s.len() as int) =~= hex_encoded(b));
}

} // verus!
