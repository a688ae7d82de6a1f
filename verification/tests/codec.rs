//! Wire codec behaviour against the curve library.
use kate_ptau_rs::errors::CeremonyError;
use kate_ptau_rs::g1::{g1_batch_to_affine, G1Point, G1};
use kate_ptau_rs::g2::{G2Point, G2};
use kate_ptau_rs::scalar::Scalar;

const G1_GEN_HEX: &str = "0x97f1d3a73197d7942695638c4fa9ac0fc3688c4f9774b905a14e3a3f171bac586c55e83ff97a1aeffb3af00adb22c6bb";
const G2_GEN_HEX: &str = "0x93e02b6052719f607dacd3a088274f65596bd0d09920b61ab5da61bbdc7f5049334cf11213945d57e5ac7d055d042b7e024aa2b2f08f0a91260805272dc51051c6e47ad4fa403b02b4510b647ae3d1770bac0326a805bbefd48056c8c121bdb8";
const G1_TWO_HEX: &str = "0xa572cbea904d67468808c8eb50a9450c9721db309128012543902d0ac358a62ae28f75bb8f1c7c42c39a8c5529bf0f4e";

fn decode_err(wire: &G1) -> CeremonyError {
    match wire.decode() {
        Err(e) => e,
        Ok(_) => panic!("the value decoded, but must not"),
    }
}

fn scalar_from_u64(v: u64) -> Scalar {
    let mut bytes = vec![0u8; 32];
    bytes[..8].copy_from_slice(&v.to_le_bytes());
    Scalar::from_le_bytes(&bytes)
}

#[test]
fn g1_generator_known_vector() {
    let wire = G1Point::generator().encode();
    assert_eq!(wire.to_hex(), G1_GEN_HEX.as_bytes().to_vec());
}

#[test]
fn g2_generator_known_vector() {
    let wire = G2Point::generator().encode();
    assert_eq!(wire.to_hex(), G2_GEN_HEX.as_bytes().to_vec());
}

#[test]
fn g1_round_trip_generator() {
    let wire = G1Point::generator().encode();
    let point = wire.decode().expect("the generator encoding must decode");
    assert_eq!(point.encode().to_bytes(), wire.to_bytes());
}

#[test]
fn g2_round_trip_generator() {
    let wire = G2Point::generator().encode();
    let point = wire.decode().expect("the generator encoding must decode");
    assert_eq!(point.encode().to_bytes(), wire.to_bytes());
}

#[test]
fn g1_round_trip_multiples() {
    let gen = G1Point::generator();
    for k in 1u64..20 {
        let p = gen.mul_scalar(&scalar_from_u64(k)).to_affine();
        let wire = p.encode();
        let q = wire.decode().expect("a valid point encoding must decode");
        assert_eq!(q.encode().to_bytes(), wire.to_bytes());
        assert!(q.is_in_subgroup());
    }
}

#[test]
fn g2_round_trip_multiples() {
    let gen = G2Point::generator();
    for k in 1u64..10 {
        let p = gen.mul_scalar(&scalar_from_u64(k)).to_affine();
        let wire = p.encode();
        let q = wire.decode().expect("a valid point encoding must decode");
        assert_eq!(q.encode().to_bytes(), wire.to_bytes());
        assert!(q.is_in_subgroup());
    }
}

#[test]
fn g1_known_multiple_of_two() {
    let doubled = G1Point::generator().mul_scalar(&scalar_from_u64(2)).to_affine();
    assert_eq!(doubled.encode().to_hex(), G1_TWO_HEX.as_bytes().to_vec());
}

#[test]
fn g1_round_trip_infinity() {
    let mut bytes = vec![0u8; 48];
    bytes[0] = 0xc0;
    let wire = G1::new(bytes.clone()).expect("48 bytes wrap");
    let point = wire.decode().expect("the canonical infinity form must decode");
    assert_eq!(point.encode().to_bytes(), &bytes);
}

#[test]
fn g2_round_trip_infinity() {
    let mut bytes = vec![0u8; 96];
    bytes[0] = 0xc0;
    let wire = G2::new(bytes.clone()).expect("96 bytes wrap");
    let point = wire.decode().expect("the canonical infinity form must decode");
    assert_eq!(point.encode().to_bytes(), &bytes);
}

#[test]
fn g1_decode_rejects_uncompressed_flag() {
    let mut bytes = vec![0u8; 48];
    // the compressed-form marker is absent
    bytes[0] = 0x17;
    let wire = G1::new(bytes).unwrap();
    assert_eq!(decode_err(&wire), CeremonyError::PointDecodeError);
}

#[test]
fn g1_decode_rejects_noncanonical_infinity() {
    let mut bytes = vec![0u8; 48];
    bytes[0] = 0xc0;
    bytes[47] = 1;
    let wire = G1::new(bytes).unwrap();
    assert_eq!(decode_err(&wire), CeremonyError::PointDecodeError);
}

#[test]
fn g1_decode_rejects_invalid_coordinate() {
    // 0x80 then 0xff..: the coordinate exceeds the field modulus
    let mut bytes = vec![0xffu8; 48];
    bytes[0] = 0x9f;
    let wire = G1::new(bytes).unwrap();
    assert_eq!(decode_err(&wire), CeremonyError::PointDecodeError);
}

#[test]
fn g1_new_rejects_wrong_width() {
    assert_eq!(G1::new(vec![0u8; 47]).unwrap_err(), CeremonyError::ValidationError);
    assert_eq!(G1::new(vec![0u8; 49]).unwrap_err(), CeremonyError::ValidationError);
    assert_eq!(G2::new(vec![0u8; 48]).unwrap_err(), CeremonyError::ValidationError);
}

#[test]
fn g1_hex_round_trip() {
    let wire = G1::from_hex(G1_GEN_HEX.as_bytes()).expect("the known vector parses");
    assert_eq!(wire.to_hex(), G1_GEN_HEX.as_bytes().to_vec());
}

#[test]
fn g1_hex_accepts_upper_case() {
    let upper = G1_GEN_HEX.to_uppercase().replace("0X", "0x");
    let wire = G1::from_hex(upper.as_bytes()).expect("upper-case digits parse");
    assert_eq!(wire.to_hex(), G1_GEN_HEX.as_bytes().to_vec());
}

#[test]
fn g1_hex_rejects_malformed() {
    assert!(G1::from_hex(b"").is_none());
    assert!(G1::from_hex(&G1_GEN_HEX.as_bytes()[..97]).is_none());
    let no_prefix = G1_GEN_HEX.replace("0x", "00");
    let mut bad_digit = no_prefix.into_bytes();
    bad_digit[0] = b'0';
    bad_digit[1] = b'x';
    bad_digit[10] = b'g';
    assert!(G1::from_hex(&bad_digit).is_none());
}

#[test]
fn batch_to_affine_matches_single() {
    let gen = G1Point::generator();
    for n in [0usize, 1, 2, 7] {
        let mut projs = Vec::new();
        for k in 0..n {
            projs.push(gen.mul_scalar(&scalar_from_u64(3 + k as u64)));
        }
        let batch = g1_batch_to_affine(&projs);
        assert_eq!(batch.len(), n);
        for k in 0..n {
            let single = projs[k].to_affine();
            assert_eq!(batch[k].encode().to_bytes(), single.encode().to_bytes());
        }
    }
}

#[test]
fn generator_is_in_subgroup() {
    assert!(G1Point::generator().is_in_subgroup());
    assert!(G2Point::generator().is_in_subgroup());
}
