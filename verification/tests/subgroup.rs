//! Subgroup rejection: a point on the curve but outside the prime-order
//! subgroup must fail the round wholesale.
use ark_bls12_381::{Fq, G1Affine};
use ark_serialize::CanonicalSerialize;
use kate_ptau_rs::contribution::{Contribution, Contributions};
use kate_ptau_rs::engine::contribute;
use kate_ptau_rs::errors::CeremonyError;
use kate_ptau_rs::g1::G1;
use kate_ptau_rs::g2::G2;

const G1_GEN_HEX: &str = "0x97f1d3a73197d7942695638c4fa9ac0fc3688c4f9774b905a14e3a3f171bac586c55e83ff97a1aeffb3af00adb22c6bb";
const G2_GEN_HEX: &str = "0x93e02b6052719f607dacd3a088274f65596bd0d09920b61ab5da61bbdc7f5049334cf11213945d57e5ac7d055d042b7e024aa2b2f08f0a91260805272dc51051c6e47ad4fa403b02b4510b647ae3d1770bac0326a805bbefd48056c8c121bdb8";

/// Finds a point on the curve but outside the prime-order subgroup and
/// returns its wire encoding. Almost every curve point lies outside the
/// subgroup, so a small search over x-coordinates suffices.
fn off_subgroup_wire() -> G1 {
    for x in 0u64..100 {
        if let Some(p) = G1Affine::get_point_from_x(Fq::from(x), false) {
            assert!(p.is_on_curve());
            if !p.is_in_correct_subgroup_assuming_on_curve() {
                let mut buf = [0u8; 48];
                p.serialize(&mut buf[..]).unwrap();
                // remap the library's flag byte into the wire convention
                let a = buf[47];
                buf[47] = ((a & 0x5f) | ((a & 0x80) >> 2)) | 0x80;
                buf.reverse();
                return G1::new(buf.to_vec()).unwrap();
            }
        }
    }
    panic!("no off-subgroup point found in the search range");
}

fn secret(v: u64) -> Vec<u8> {
    let mut bytes = vec![0u8; 32];
    bytes[..8].copy_from_slice(&v.to_le_bytes());
    bytes
}

#[test]
fn crafted_point_decodes_but_fails_subgroup_check() {
    let wire = off_subgroup_wire();
    let point = wire.decode().expect("an on-curve point must decode");
    assert!(!point.is_in_subgroup());
}

#[test]
fn contribute_rejects_off_subgroup_point() {
    let g1_gen = G1::from_hex(G1_GEN_HEX.as_bytes()).unwrap();
    let g2_gen = G2::from_hex(G2_GEN_HEX.as_bytes()).unwrap();
    let mut g1_powers = vec![g1_gen];
    g1_powers.push(off_subgroup_wire());
    let crafted = Contribution::new(2, 1, g1_powers, vec![g2_gen], None);
    let doc = Contributions {
        sub_contributions: [
            Contribution::new(0, 0, vec![], vec![], None),
            Contribution::new(0, 0, vec![], vec![], None),
            Contribution::new(0, 0, vec![], vec![], None),
            crafted,
        ],
    };
    let err = contribute(&doc, &secret(9)).unwrap_err();
    assert_eq!(err, CeremonyError::InvalidContribution);
}
