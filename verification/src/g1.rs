//! The short-coordinate curve group and its wire codec.
//!
//! A point of this group travels as 48 bytes: the curve library's
//! canonical compressed serialization, reversed and with the flag bits
//! remapped as `crate::flags` describes. The executable point types carry
//! the library's representation; their view is the canonical little-endian
//! serialization, which every contract speaks of.
use ark_bls12_381::{Fq, G1Affine, G1Projective};
use ark_ec::{AffineCurve, ProjectiveCurve};
use ark_ff::{PrimeField, Zero};
use ark_serialize::{CanonicalDeserializeWithFlags, CanonicalSerialize, SWFlags};
use vstd::prelude::*;

use crate::errors::CeremonyError;
use crate::flags::{
    ark_flag_exec, ark_of_wire, lemma_ark_round_trip, lemma_wire_round_trip, wire_flag_byte,
    wire_flag_exec, wire_of_ark,
};
use crate::hexstr::{
    decode_hex_digits, encode_hex_digits, hex_decoded, hex_encoded, hex_pairs_ok,
    lemma_hex_round_trip,
};
use crate::scalar::Scalar;

verus! {

/// The curve library's affine point, held opaquely: Verus refuses the
/// declaration of the generic point type, whose parameter is bound by an
/// outside trait.
#[verifier::external_body]
struct G1AffineRaw(G1Affine);

/// The curve library's projective point, held opaquely for the same
/// reason.
#[verifier::external_body]
struct G1ProjRaw(G1Projective);

/// Whether the curve library accepts a 48-byte string as the canonical
/// compressed serialization of a point of this group: the coordinate must
/// be a canonical field element, the flag combination legal, and the
/// coordinate must solve the curve equation (or the string must be the
/// canonical infinity form). Membership in the prime-order subgroup is not
/// part of this predicate.
pub uninterp spec fn g1_accepts(bytes: Seq<u8>) -> bool;

/// The canonical serialization of the product of the point with the given
/// serialization by the scalar with the given canonical value.
pub uninterp spec fn g1_mul_repr(point: Seq<u8>, scalar: int) -> Seq<u8>;

/// Whether the point with the given canonical serialization lies in the
/// prime-order subgroup.
pub uninterp spec fn g1_subgroup(point: Seq<u8>) -> bool;

/// The canonical serialization of the point at infinity: a zero
/// coordinate with the infinity flag.
pub open spec fn g1_ark_infinity() -> Seq<u8> {
    Seq::new(48, |i: int| if i == 47 { 0x40u8 } else { 0u8 })
}

/// The wire form of the point at infinity.
pub open spec fn g1_wire_infinity() -> Seq<u8> {
    Seq::new(48, |i: int| if i == 0 { 0xc0u8 } else { 0u8 })
}

/// The wire encoding of the fixed generator of this group.
pub open spec fn g1_generator_wire() -> Seq<u8> {
    seq![
        0x97u8, 0xf1, 0xd3, 0xa7, 0x31, 0x97, 0xd7, 0x94, 0x26, 0x95, 0x63, 0x8c, 0x4f, 0xa9,
        0xac, 0x0f, 0xc3, 0x68, 0x8c, 0x4f, 0x97, 0x74, 0xb9, 0x05, 0xa1, 0x4e, 0x3a, 0x3f, 0x17,
        0x1b, 0xac, 0x58, 0x6c, 0x55, 0xe8, 0x3f, 0xf9, 0x7a, 0x1a, 0xef, 0xfb, 0x3a, 0xf0, 0x0a,
        0xdb, 0x22, 0xc6, 0xbb,
    ]
}

/// A valid canonical serialization: 48 bytes whose flag byte has bit 5
/// clear, the infinity flag only on the canonical infinity form, and which
/// the curve library accepts.
pub open spec fn g1_repr_valid(r: Seq<u8>) -> bool {
    &&& r.len() == 48
    &&& r[47] & 0x20 == 0
    &&& (r[47] & 0x40 != 0 ==> r == g1_ark_infinity())
    &&& g1_accepts(r)
}

/// A decodable wire value: 48 bytes with the compressed-form marker, the
/// infinity flag only on the canonical infinity form, and a canonical
/// serialization the curve library accepts.
pub open spec fn g1_wire_ok(w: Seq<u8>) -> bool {
    &&& w.len() == 48
    &&& w[0] & 0x80 == 0x80
    &&& (w[0] & 0x40 != 0 ==> w == g1_wire_infinity())
    &&& g1_accepts(ark_of_wire(w))
}

/// An affine point of this group, on the curve by construction. Its view
/// is its canonical little-endian serialization.
pub struct G1Point {
    inner: G1AffineRaw,
    repr: Ghost<Seq<u8>>,
}

impl View for G1Point {
    type V = Seq<u8>;

    closed spec fn view(&self) -> Seq<u8> {
        self.repr@
    }
}

/// A projective point of this group, produced by scalar multiplication
/// and consumed by the conversions back to affine form. Its view is the
/// canonical serialization of its affine form.
pub struct G1Proj {
    inner: G1ProjRaw,
    repr: Ghost<Seq<u8>>,
}

impl View for G1Proj {
    type V = Seq<u8>;

    closed spec fn view(&self) -> Seq<u8> {
        self.repr@
    }
}

impl G1Point {
    #[verifier::type_invariant]
    spec fn wf(self) -> bool {
        g1_repr_valid(self.repr@)
    }

    /// Relies on GroupAffine::prime_subgroup_generator: the fixed
    /// generator of the prime-order subgroup, whose compressed form is the
    /// well-known constant that `g1_generator_wire` renders on the wire.
    #[verifier::external_body]
    pub fn generator() -> (p: G1Point)
        ensures
            p@ == ark_of_wire(g1_generator_wire()),
            g1_repr_valid(p@),
    {
        G1Point { inner: G1AffineRaw(G1Affine::prime_subgroup_generator()), repr: Ghost(arbitrary()) }
    }

    /// Relies on CanonicalSerialize::serialize for GroupAffine: writes the
    /// point's canonical compressed form, 48 bytes, which is exactly the
    /// point's view.
    #[verifier::external_body]
    fn serialize_bytes(&self) -> (b: Vec<u8>)
        ensures
            b@ == self@,
    {
        let mut buf = [0u8; 48];
        self.inner.0.serialize(&mut buf[..]).expect("a 48-byte buffer holds a compressed point");
        buf.to_vec()
    }

    /// Relies on GroupAffine::is_in_correct_subgroup_assuming_on_curve:
    /// membership of the point in the prime-order subgroup.
    #[verifier::external_body]
    pub fn is_in_subgroup(&self) -> (r: bool)
        ensures
            r == g1_subgroup(self@),
    {
        self.inner.0.is_in_correct_subgroup_assuming_on_curve()
    }

    /// Relies on AffineCurve::mul: multiplication of the point by the
    /// scalar, in projective form. Multiplying by the scalar one returns
    /// the point itself, and the result's serialization is again a valid
    /// canonical form.
    #[verifier::external_body]
    pub fn mul_scalar(&self, s: &Scalar) -> (q: G1Proj)
        ensures
            q@ == g1_mul_repr(self@, s@),
            s@ == 1 ==> q@ == self@,
            g1_repr_valid(q@),
    {
        G1Proj { inner: G1ProjRaw(self.inner.0.mul(s.raw().into_repr())), repr: Ghost(arbitrary()) }
    }

    /// Encodes the point into its wire form.
    pub fn encode(&self) -> (w: G1)
        ensures
            w@ == wire_of_ark(self@),
            g1_wire_ok(w@),
    {
        proof {
            use_type_invariant(self);
        }
        let b = self.serialize_bytes();
        let mut bytes: Vec<u8> = Vec::new();
        bytes.push(wire_flag_exec(b[47]));
        let mut i: usize = 1;
        while i < 48
            invariant
                1 <= i <= 48,
                b@.len() == 48,
                bytes@.len() == i,
                bytes@[0] == wire_flag_byte(b@[47]),
                forall|j: int| 1 <= j < i ==> bytes@[j] == b@[47 - j],
            decreases 48 - i,
        {
            bytes.push(b[47 - i]);
            i = i + 1;
        }
        proof {
            assert(bytes@ =~= wire_of_ark(self@));
            lemma_wire_round_trip(self@);
            if bytes@[0] & 0x40 != 0 {
                assert(self@[47] & 0x40 != 0);
                lemma_infinity_forms();
            }
        }
        G1 { bytes }
    }
}

impl G1Proj {
    #[verifier::type_invariant]
    spec fn wf(self) -> bool {
        g1_repr_valid(self.repr@)
    }

    /// Relies on ProjectiveCurve::into_affine: the affine form of the
    /// point, with the same, still valid, canonical serialization.
    #[verifier::external_body]
    pub fn to_affine(&self) -> (q: G1Point)
        ensures
            q@ == self@,
            g1_repr_valid(q@),
    {
        G1Point { inner: G1AffineRaw(self.inner.0.into_affine()), repr: Ghost(arbitrary()) }
    }
}

/// Relies on ProjectiveCurve::batch_normalization_into_affine: the affine
/// forms of all the points, sharing one field inversion, in the input's
/// order. Entry by entry the result is what `G1Proj::to_affine` returns.
#[verifier::external_body]
pub fn g1_batch_to_affine(v: &Vec<G1Proj>) -> (w: Vec<G1Point>)
    ensures
        w@.len() == v@.len(),
        forall|i: int| 0 <= i < v@.len() ==> #[trigger] w@[i]@ == v@[i]@,
        forall|i: int| 0 <= i < v@.len() ==> g1_repr_valid(#[trigger] w@[i]@),
{
    let inners: Vec<G1Projective> = v.iter().map(|p| p.inner.0).collect();
    ProjectiveCurve::batch_normalization_into_affine(&inners)
        .into_iter()
        .map(|a| G1Point { inner: G1AffineRaw(a), repr: Ghost(arbitrary()) })
        .collect()
}

/// Relies on Fq::deserialize_with_flags and GroupAffine::get_point_from_x,
/// the two steps of the curve library's compressed deserialization, with
/// the subgroup test left to a separate call: the coordinate is read and
/// checked canonical, the flag combination checked legal, and the point
/// reconstructed on the curve. Accepted bytes re-serialize to themselves,
/// which the precondition on the infinity flag keeps true.
#[verifier::external_body]
fn g1_read(b: &[u8]) -> (r: Result<G1Point, CeremonyError>)
    requires
        b@.len() == 48,
        b@[47] & 0x40 != 0 ==> b@ == g1_ark_infinity(),
    ensures
        r is Ok <==> g1_accepts(b@),
        r matches Ok(p) ==> p@ == b@,
        r matches Ok(p) ==> g1_repr_valid(p@),
        r matches Err(e) ==> e == CeremonyError::PointDecodeError,
{
    let (x, flags) = match Fq::deserialize_with_flags::<_, SWFlags>(b) {
        Ok(v) => v,
        Err(_) => return Err(CeremonyError::PointDecodeError),
    };
    let greatest = match flags {
        SWFlags::Infinity => {
            return Ok(G1Point { inner: G1AffineRaw(G1Affine::zero()), repr: Ghost(arbitrary()) });
        },
        SWFlags::PositiveY => true,
        SWFlags::NegativeY => false,
    };
    match G1Affine::get_point_from_x(x, greatest) {
        Some(p) => Ok(G1Point { inner: G1AffineRaw(p), repr: Ghost(arbitrary()) }),
        None => Err(CeremonyError::PointDecodeError),
    }
}

/// Batch-to-single equivalence: outputs meeting the batch conversion's
/// contract coincide, entry by entry, with outputs of the single-point
/// conversion applied to each entry — both conversions preserve each
/// point's canonical serialization, for every batch length, the empty
/// one included.
pub proof fn lemma_g1_batch_matches_single(
    projs: Seq<Seq<u8>>,
    batch: Seq<Seq<u8>>,
    singles: Seq<Seq<u8>>,
)
    requires
        batch.len() == projs.len(),
        forall|i: int| 0 <= i < projs.len() ==> #[trigger] batch[i] == projs[i],
        singles.len() == projs.len(),
        forall|i: int| 0 <= i < projs.len() ==> #[trigger] singles[i] == projs[i],
    ensures
        batch == singles,
{
    assert(batch =~= singles);
}

/// The canonical infinity forms translate into each other.
pub proof fn lemma_infinity_forms()
    ensures
        wire_of_ark(g1_ark_infinity()) == g1_wire_infinity(),
        ark_of_wire(g1_wire_infinity()) == g1_ark_infinity(),
{
    assert((((0x40u8 & 0x5f) | ((0x40u8 & 0x80) >> 2)) | 0x80) == 0xc0u8) by (bit_vector);
    assert((((0xc0u8 & 0x1f) | ((0xc0u8 & 0x20) << 2)) | (0xc0u8 & 0x40)) == 0x40u8)
        by (bit_vector);
    assert(wire_of_ark(g1_ark_infinity()) =~= g1_wire_infinity());
    assert(ark_of_wire(g1_wire_infinity()) =~= g1_ark_infinity());
}

/// A point of this group in its wire form: 48 bytes, most-significant
/// first, with the flag bits of the wire convention. Its view is the byte
/// string.
#[derive(Debug)]
pub struct G1 {
    bytes: Vec<u8>,
}

impl View for G1 {
    type V = Seq<u8>;

    closed spec fn view(&self) -> Seq<u8> {
        self.bytes@
    }
}

impl G1 {
    #[verifier::type_invariant]
    spec fn wf(self) -> bool {
        self.bytes@.len() == 48
    }

    /// Wraps a byte string as a wire value; rejects any other length.
    pub fn new(bytes: Vec<u8>) -> (r: Result<G1, CeremonyError>)
        ensures
            r is Ok <==> bytes@.len() == 48,
            r matches Ok(g) ==> g@ == bytes@,
            r matches Err(e) ==> e == CeremonyError::ValidationError,
    {
        if bytes.len() == 48 {
            Ok(G1 { bytes })
        } else {
            Err(CeremonyError::ValidationError)
        }
    }

    /// The wire bytes.
    pub fn to_bytes(&self) -> (r: &Vec<u8>)
        ensures
            r@ == self@,
    {
        &self.bytes
    }

    /// Decodes the wire value into a point, verifying that the flag
    /// combination is legal and that the coordinate denotes a point on the
    /// curve; subgroup membership is checked separately.
    pub fn decode(&self) -> (r: Result<G1Point, CeremonyError>)
        ensures
            r is Ok <==> g1_wire_ok(self@),
            r matches Ok(p) ==> p@ == ark_of_wire(self@) && g1_repr_valid(p@),
            r matches Err(e) ==> e == CeremonyError::PointDecodeError,
    {
        proof {
            use_type_invariant(self);
        }
        let b0 = self.bytes[0];
        if b0 & 0x80 != 0x80 {
            return Err(CeremonyError::PointDecodeError);
        }
        if b0 & 0x40 != 0 {
            if b0 != 0xc0 {
                proof {
                    assert(g1_wire_infinity()[0] == 0xc0);
                }
                return Err(CeremonyError::PointDecodeError);
            }
            let mut i: usize = 1;
            while i < 48
                invariant
                    1 <= i <= 48,
                    self@.len() == 48,
                    self@[0] & 0x40 != 0,
                    forall|j: int| 1 <= j < i ==> self@[j] == 0,
                decreases 48 - i,
            {
                if self.bytes[i] != 0 {
                    proof {
                        assert(g1_wire_infinity()[i as int] == 0);
                    }
                    return Err(CeremonyError::PointDecodeError);
                }
                i = i + 1;
            }
            proof {
                assert(self@ =~= g1_wire_infinity());
            }
        }
        let mut ark: Vec<u8> = Vec::new();
        let mut i: usize = 0;
        while i < 47
            invariant
                0 <= i <= 47,
                self@.len() == 48,
                ark@.len() == i,
                forall|j: int| 0 <= j < i ==> ark@[j] == self@[47 - j],
            decreases 47 - i,
        {
            ark.push(self.bytes[47 - i]);
            i = i + 1;
        }
        ark.push(ark_flag_exec(b0));
        proof {
            assert(ark@ =~= ark_of_wire(self@));
            lemma_ark_round_trip(self@);
            if self@[0] & 0x40 != 0 {
                lemma_infinity_forms();
            }
        }
        g1_read(ark.as_slice())
    }

    /// Renders the wire value as a `0x`-prefixed lower-case hexadecimal
    /// string of 98 ASCII bytes.
    pub fn to_hex(&self) -> (r: Vec<u8>)
        ensures
            r@ == seq![0x30u8, 0x78u8] + hex_encoded(self@),
            r@.len() == 98,
    {
        proof {
            use_type_invariant(self);
        }
        let mut r: Vec<u8> = Vec::new();
        r.push(0x30);
        r.push(0x78);
        let mut digits = encode_hex_digits(self.bytes.as_slice());
        r.append(&mut digits);
        proof {
            assert(r@ =~= seq![0x30u8, 0x78u8] + hex_encoded(self@));
        }
        r
    }

    /// Parses a `0x`-prefixed hexadecimal string into a wire value;
    /// `None` exactly on malformed input.
    pub fn from_hex(s: &[u8]) -> (r: Option<G1>)
        ensures
            r is Some <==> g1_hex_ok(s@),
            r matches Some(g) ==> g@ == hex_decoded(s@.subrange(2, s@.len() as int)),
    {
        if s.len() != 98 {
            return None;
        }
        if s[0] != 0x30 || s[1] != 0x78 {
            return None;
        }
        let mut digits: Vec<u8> = Vec::new();
        let mut i: usize = 2;
        while i < 98
            invariant
                2 <= i <= 98,
                s@.len() == 98,
                digits@.len() == i - 2,
                forall|j: int| 0 <= j < i - 2 ==> digits@[j] == s@[j + 2],
            decreases 98 - i,
        {
            digits.push(s[i]);
            i = i + 1;
        }
        proof {
            assert(digits@ =~= s@.subrange(2, 98));
        }
        match decode_hex_digits(digits.as_slice()) {
            Some(v) => Some(G1 { bytes: v }),
            None => None,
        }
    }
}

/// A parsable hexadecimal rendering of a wire value: `0x`, then exactly
/// 96 hexadecimal digits.
pub open spec fn g1_hex_ok(s: Seq<u8>) -> bool {
    &&& s.len() == 98
    &&& s[0] == 0x30
    &&& s[1] == 0x78
    &&& hex_pairs_ok(s.subrange(2, s.len() as int))
}

/// Round trip: the wire encoding of any valid point is decodable, and
/// decoding it recovers the point's canonical serialization exactly.
pub proof fn lemma_g1_round_trip(r: Seq<u8>)
    requires
        g1_repr_valid(r),
    ensures
        g1_wire_ok(wire_of_ark(r)),
        ark_of_wire(wire_of_ark(r)) == r,
{
    lemma_wire_round_trip(r);
    if wire_of_ark(r)[0] & 0x40 != 0 {
        assert(r[47] & 0x40 != 0);
        lemma_infinity_forms();
    }
}

/// Hexadecimal round trip: rendering a wire value and parsing it back
/// recovers the same bytes.
pub proof fn lemma_g1_hex_round_trip(b: Seq<u8>)
    requires
        b.len() == 48,
    ensures
        g1_hex_ok(seq![0x30u8, 0x78u8] + hex_encoded(b)),
        hex_decoded((seq![0x30u8, 0x78u8] + hex_encoded(b)).subrange(
            2,
            (seq![0x30u8, 0x78u8] + hex_encoded(b)).len() as int,
        )) == b,
{
    lemma_hex_round_trip(b);
    let s = seq![0x30u8, 0x78u8] + hex_encoded(b);
    assert(s.subrange(2, s.len() as int) =~= hex_encoded(b));
}

} // verus!
