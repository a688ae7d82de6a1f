//! Bit layout of compressed points on the wire.
//!
//! A point travels as a little-endian integer printed big-endian: the byte
//! string is the reverse of the curve library's canonical little-endian
//! serialization, and the flag bits move between the two conventions.
//!
//! Library layout (last byte of the little-endian form): bit 7 carries the
//! y-coordinate sign, bit 6 marks the point at infinity, bit 5 is always
//! clear because the base field fits in 381 bits.
//!
//! Wire layout (first byte of the big-endian form): bit 7 is always set and
//! marks the compressed form, bit 6 marks infinity, bit 5 carries the
//! y-coordinate sign.
use vstd::prelude::*;

verus! {

/// Remaps the flag byte of the canonical serialization into the wire
/// convention: the sign moves from bit 7 to bit 5, infinity stays on
/// bit 6, and bit 7 is set to mark the compressed form.
pub open spec fn wire_flag_byte(a: u8) -> u8 {
    ((a & 0x5f) | ((a & 0x80) >> 2)) | 0x80
}

/// Remaps a wire flag byte back into the canonical serialization's
/// convention: the sign moves from bit 5 to bit 7, infinity stays on
/// bit 6, and the compressed-form marker is dropped.
pub open spec fn ark_flag_byte(w: u8) -> u8 {
    ((w & 0x1f) | ((w & 0x20) << 2)) | (w & 0x40)
}

/// The wire form of a canonical little-endian serialization: the bytes
/// reversed, with the flag byte remapped.
pub open spec fn wire_of_ark(a: Seq<u8>) -> Seq<u8> {
    Seq::new(a.len(), |i: int| {
        if i == 0 {
            wire_flag_byte(a[a.len() - 1])
        } else {
            a[a.len() - 1 - i]
        }
    })
}

/// The canonical little-endian serialization recovered from a wire value:
/// the bytes reversed, with the flag byte remapped back.
pub open spec fn ark_of_wire(w: Seq<u8>) -> Seq<u8> {
    Seq::new(w.len(), |i: int| {
        if i == w.len() - 1 {
            ark_flag_byte(w[0])
        } else {
            w[w.len() - 1 - i]
        }
    })
}

/// The executable form of `wire_flag_byte`.
pub fn wire_flag_exec(a: u8) -> (r: u8)
    ensures
        r == wire_flag_byte(a),
{
    ((a & 0x5f) | ((a & 0x80) >> 2)) | 0x80
}

/// The executable form of `ark_flag_byte`.
pub fn ark_flag_exec(w: u8) -> (r: u8)
    ensures
        r == ark_flag_byte(w),
{
    ((w & 0x1f) | ((w & 0x20) << 2)) | (w & 0x40)
}

/// Remapping a canonical flag byte to the wire and back is the identity,
/// and the wire byte always carries the compressed-form marker.
pub proof fn lemma_flag_byte_round_trip(a: u8)
    requires
        a & 0x20 == 0,
    ensures
        ark_flag_byte(wire_flag_byte(a)) == a,
        wire_flag_byte(a) & 0x80 == 0x80,
        wire_flag_byte(a) & 0x40 == a & 0x40,
{
    assert(a & 0x20 == 0 ==> ((((((a & 0x5f) | ((a & 0x80) >> 2)) | 0x80) & 0x1f) | (((((a & 0x5f)
        | ((a & 0x80) >> 2)) | 0x80) & 0x20) << 2)) | ((((a & 0x5f) | ((a & 0x80) >> 2)) | 0x80)
        & 0x40)) == a) by (bit_vector);
    assert((((a & 0x5f) | ((a & 0x80) >> 2)) | 0x80) & 0x80 == 0x80) by (bit_vector);
    assert((((a & 0x5f) | ((a & 0x80) >> 2)) | 0x80) & 0x40 == a & 0x40) by (bit_vector);
}

/// Remapping a wire flag byte back and forth is the identity whenever the
/// compressed-form marker is present, and the recovered byte has bit 5
/// clear, as every canonical serialization does.
pub proof fn lemma_flag_byte_inverse(w: u8)
    requires
        w & 0x80 == 0x80,
    ensures
        wire_flag_byte(ark_flag_byte(w)) == w,
        ark_flag_byte(w) & 0x20 == 0,
        ark_flag_byte(w) & 0x40 == w & 0x40,
{
    assert(w & 0x80 == 0x80 ==> ((((((w & 0x1f) | ((w & 0x20) << 2)) | (w & 0x40)) & 0x5f)
        | (((((w & 0x1f) | ((w & 0x20) << 2)) | (w & 0x40)) & 0x80) >> 2)) | 0x80) == w)
        by (bit_vector);
    assert((((w & 0x1f) | ((w & 0x20) << 2)) | (w & 0x40)) & 0x20 == 0) by (bit_vector);
    assert((((w & 0x1f) | ((w & 0x20) << 2)) | (w & 0x40)) & 0x40 == w & 0x40) by (bit_vector);
}

/// Taking a canonical serialization to the wire and back recovers it
/// exactly, provided its flag byte has bit 5 clear.
pub proof fn lemma_wire_round_trip(a: Seq<u8>)
    requires
        a.len() >= 1,
        a[a.len() - 1] & 0x20 == 0,
    ensures
        ark_of_wire(wire_of_ark(a)) == a,
        wire_of_ark(a)[0] & 0x80 == 0x80,
        wire_of_ark(a)[0] & 0x40 == a[a.len() - 1] & 0x40,
{
    lemma_flag_byte_round_trip(a[a.len() - 1]);
    let w = wire_of_ark(a);
    assert forall|i: int| 0 <= i < a.len() implies ark_of_wire(w)[i] == a[i] by {
        if i == a.len() - 1 {
            assert(ark_of_wire(w)[i] == ark_flag_byte(wire_flag_byte(a[a.len() - 1])));
        }
    }
    assert(ark_of_wire(w) =~= a);
}

/// Taking a wire value back to the canonical serialization and out again
/// recovers it exactly, provided the compressed-form marker is present.
pub proof fn lemma_ark_round_trip(w: Seq<u8>)
    requires
        w.len() >= 1,
        w[0] & 0x80 == 0x80,
    ensures
        wire_of_ark(ark_of_wire(w)) == w,
        ark_of_wire(w)[w.len() - 1] & 0x20 == 0,
        ark_of_wire(w)[w.len() - 1] & 0x40 == w[0] & 0x40,
{
    lemma_flag_byte_inverse(w[0]);
    let a = ark_of_wire(w);
    assert forall|i: int| 0 <= i < w.len() implies wire_of_ark(a)[i] == w[i] by {
        if i == 0 {
            assert(wire_of_ark(a)[i] == wire_flag_byte(ark_flag_byte(w[0])));
        }
    }
    assert(wire_of_ark(a) =~= w);
}

} // verus!
