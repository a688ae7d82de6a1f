//! The contribution engine, end to end.
use kate_ptau_rs::contribution::{Contribution, Contributions};
use kate_ptau_rs::engine::contribute;
use kate_ptau_rs::errors::CeremonyError;
use kate_ptau_rs::g1::{G1Point, G1};
use kate_ptau_rs::g2::{G2Point, G2};
use kate_ptau_rs::scalar::Scalar;

const G1_GEN_HEX: &str = "0x97f1d3a73197d7942695638c4fa9ac0fc3688c4f9774b905a14e3a3f171bac586c55e83ff97a1aeffb3af00adb22c6bb";
const G2_GEN_HEX: &str = "0x93e02b6052719f607dacd3a088274f65596bd0d09920b61ab5da61bbdc7f5049334cf11213945d57e5ac7d055d042b7e024aa2b2f08f0a91260805272dc51051c6e47ad4fa403b02b4510b647ae3d1770bac0326a805bbefd48056c8c121bdb8";

fn secret(v: u64) -> Vec<u8> {
    let mut bytes = vec![0u8; 32];
    bytes[..8].copy_from_slice(&v.to_le_bytes());
    bytes
}

fn g1_gen_wire() -> G1 {
    G1::from_hex(G1_GEN_HEX.as_bytes()).unwrap()
}

fn g2_gen_wire() -> G2 {
    G2::from_hex(G2_GEN_HEX.as_bytes()).unwrap()
}

/// The ceremony's starting document: every power is the respective
/// generator, because the combined secret starts at one.
fn initial_doc(g1_sizes: [usize; 4], g2_sizes: [usize; 4]) -> Contributions {
    let mut subs = Vec::new();
    for k in 0..4 {
        let mut g1_powers = Vec::new();
        for _ in 0..g1_sizes[k] {
            g1_powers.push(g1_gen_wire());
        }
        let mut g2_powers = Vec::new();
        for _ in 0..g2_sizes[k] {
            g2_powers.push(g2_gen_wire());
        }
        subs.push(Contribution::new(g1_sizes[k], g2_sizes[k], g1_powers, g2_powers, None));
    }
    let mut it = subs.into_iter();
    Contributions {
        sub_contributions: [
            it.next().unwrap(),
            it.next().unwrap(),
            it.next().unwrap(),
            it.next().unwrap(),
        ],
    }
}

fn wire_hexes(c: &Contribution) -> (Vec<Vec<u8>>, Vec<Vec<u8>>) {
    (
        c.powers_of_tau.g1_powers.iter().map(|w| w.to_hex()).collect(),
        c.powers_of_tau.g2_powers.iter().map(|w| w.to_hex()).collect(),
    )
}

#[test]
fn contribute_with_secret_one_keeps_powers() {
    let doc = initial_doc([1, 2, 4, 8], [1, 2, 2, 2]);
    let out = contribute(&doc, &secret(1)).expect("a valid document contributes");
    for k in 0..4 {
        let (g1s, g2s) = wire_hexes(&out.sub_contributions[k]);
        assert_eq!(g1s.len(), doc.sub_contributions[k].num_g1_powers);
        assert_eq!(g2s.len(), doc.sub_contributions[k].num_g2_powers);
        for h in &g1s {
            assert_eq!(h, &G1_GEN_HEX.as_bytes().to_vec());
        }
        for h in &g2s {
            assert_eq!(h, &G2_GEN_HEX.as_bytes().to_vec());
        }
        // the commitment to the secret one is the generator itself
        let pk = out.sub_contributions[k].pot_pubkey.as_ref().expect("a pubkey is attached");
        assert_eq!(pk.to_hex(), G2_GEN_HEX.as_bytes().to_vec());
    }
}

#[test]
fn contribute_matches_direct_scalar_multiplication() {
    let doc = initial_doc([1, 2, 4, 8], [1, 2, 2, 2]);
    let out = contribute(&doc, &secret(5)).expect("a valid document contributes");
    let tau = Scalar::from_le_bytes(&secret(5));
    // power_i must equal tau^i applied to the generator, for one shared tau
    let mut power = Scalar::from_le_bytes(&secret(1));
    let g1_gen = G1Point::generator();
    let g2_gen = G2Point::generator();
    let largest = &out.sub_contributions[3];
    for i in 0..largest.num_g1_powers {
        let expect = g1_gen.mul_scalar(&power).to_affine().encode();
        assert_eq!(
            largest.powers_of_tau.g1_powers[i].to_bytes(),
            expect.to_bytes(),
            "entry {} must be the {}-th power of the shared secret",
            i,
            i
        );
        power = power.mul_mod(&tau);
    }
    let mut power = Scalar::from_le_bytes(&secret(1));
    for i in 0..largest.num_g2_powers.min(2) {
        let expect = g2_gen.mul_scalar(&power).to_affine().encode();
        assert_eq!(largest.powers_of_tau.g2_powers[i].to_bytes(), expect.to_bytes());
        power = power.mul_mod(&tau);
    }
    // the commitment is the generator raised to the secret
    let pk = largest.pot_pubkey.as_ref().unwrap();
    assert_eq!(pk.to_bytes(), g2_gen.mul_scalar(&tau).to_affine().encode().to_bytes());
}

#[test]
fn contribute_keeps_nested_prefixes() {
    let doc = initial_doc([1, 2, 4, 8], [1, 2, 2, 2]);
    let out = contribute(&doc, &secret(7)).expect("a valid document contributes");
    for k in 0..4 {
        for l in 0..4 {
            let (a1, a2) = wire_hexes(&out.sub_contributions[k]);
            let (b1, b2) = wire_hexes(&out.sub_contributions[l]);
            for i in 0..a1.len().min(b1.len()) {
                assert_eq!(a1[i], b1[i]);
            }
            for i in 0..a2.len().min(b2.len()) {
                assert_eq!(a2[i], b2[i]);
            }
        }
    }
}

#[test]
fn contribute_twice_differs_but_keeps_generator_first() {
    let doc = initial_doc([2, 2, 4, 8], [1, 2, 2, 2]);
    let out_a = contribute(&doc, &secret(11)).unwrap();
    let out_b = contribute(&doc, &secret(13)).unwrap();
    let (a1, _) = wire_hexes(&out_a.sub_contributions[3]);
    let (b1, _) = wire_hexes(&out_b.sub_contributions[3]);
    assert_ne!(a1[1], b1[1], "different secrets must give different powers");
    for out in [&out_a, &out_b] {
        for k in 0..4 {
            let (g1s, g2s) = wire_hexes(&out.sub_contributions[k]);
            assert_eq!(g1s[0], G1_GEN_HEX.as_bytes().to_vec());
            assert_eq!(g2s[0], G2_GEN_HEX.as_bytes().to_vec());
        }
    }
}

#[test]
fn contribute_chains_rounds() {
    let doc = initial_doc([1, 1, 2, 4], [1, 1, 2, 2]);
    let mid = contribute(&doc, &secret(3)).unwrap();
    let out = contribute(&mid, &secret(4)).unwrap();
    // two rounds of 3 and 4 equal one round of 12
    let once = contribute(&doc, &secret(12)).unwrap();
    for k in 0..4 {
        assert_eq!(
            wire_hexes(&out.sub_contributions[k]).0,
            wire_hexes(&once.sub_contributions[k]).0
        );
        assert_eq!(
            wire_hexes(&out.sub_contributions[k]).1,
            wire_hexes(&once.sub_contributions[k]).1
        );
    }
}

#[test]
fn contribute_rejects_length_mismatch() {
    let mut doc = initial_doc([1, 2, 4, 8], [1, 2, 2, 2]);
    doc.sub_contributions[2].num_g1_powers = 5;
    let err = contribute(&doc, &secret(9)).unwrap_err();
    assert_eq!(err, CeremonyError::ValidationError);
}

#[test]
fn contribute_rejects_malformed_point() {
    let mut doc = initial_doc([1, 2, 4, 8], [1, 2, 2, 2]);
    // a coordinate beyond the field modulus: rejected before any curve work
    let mut bad_bytes = vec![0xffu8; 48];
    bad_bytes[0] = 0x9f;
    let bad = G1::new(bad_bytes).unwrap();
    doc.sub_contributions[3].powers_of_tau.g1_powers[7] = bad;
    let err = contribute(&doc, &secret(9)).unwrap_err();
    assert_eq!(err, CeremonyError::PointDecodeError);
}

#[test]
fn contribute_on_empty_document() {
    let doc = Contributions::default();
    let out = contribute(&doc, &secret(21)).expect("the empty document contributes");
    for k in 0..4 {
        assert_eq!(out.sub_contributions[k].num_g1_powers, 0);
        assert_eq!(out.sub_contributions[k].num_g2_powers, 0);
        assert!(out.sub_contributions[k].pot_pubkey.is_some());
    }
}

#[test]
fn validation_precedes_point_decoding() {
    let mut doc = initial_doc([1, 2, 4, 8], [1, 2, 2, 2]);
    let mut bad_bytes = vec![0xffu8; 48];
    bad_bytes[0] = 0x9f;
    doc.sub_contributions[3].powers_of_tau.g1_powers[2] = G1::new(bad_bytes).unwrap();
    doc.sub_contributions[0].num_g2_powers = 9;
    let err = contribute(&doc, &secret(2)).unwrap_err();
    assert_eq!(err, CeremonyError::ValidationError);
}

#[test]
fn canonical_vectors_may_come_from_different_sub_ceremonies() {
    let doc = initial_doc([8, 1, 1, 1], [1, 2, 2, 4]);
    let out = contribute(&doc, &secret(6)).expect("a valid document contributes");
    let tau = Scalar::from_le_bytes(&secret(6));
    let g1_expect = G1Point::generator().mul_scalar(&tau).to_affine().encode();
    let g2_expect = G2Point::generator().mul_scalar(&tau).to_affine().encode();
    assert_eq!(
        out.sub_contributions[0].powers_of_tau.g1_powers[1].to_bytes(),
        g1_expect.to_bytes()
    );
    assert_eq!(
        out.sub_contributions[3].powers_of_tau.g2_powers[1].to_bytes(),
        g2_expect.to_bytes()
    );
}
