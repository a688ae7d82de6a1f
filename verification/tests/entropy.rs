//! Secret derivation from seed bytes and local randomness.
use kate_ptau_rs::entropy::{derive_secret, hash_entropy};

#[test]
fn derive_secret_known_digest() {
    // the digest of 32 zero bytes, against a published reference value
    let out = derive_secret(&[], &vec![0u8; 32]);
    let expect = hex::decode("66687aadf862bd776c8fc18b8e9f8e20089714856ee233b3902a591d0d5f2925")
        .unwrap();
    assert_eq!(out, expect);
}

#[test]
fn derive_secret_concatenates_seed_and_local() {
    // the same bytes split differently between the two inputs hash alike
    let a = derive_secret(b"abc", &b"defdefdefdefdefdefdefdefdefdefde".to_vec());
    let b = derive_secret(b"abcdef", &b"defdefdefdefdefdefdefdefdefdefde"[3..].to_vec());
    assert_eq!(a, b, "only the concatenation of the two inputs is hashed");
    let c = derive_secret(b"abd", &b"defdefdefdefdefdefdefdefdefdefde".to_vec());
    assert_ne!(a, c, "a different seed gives a different secret");
}

#[test]
fn hash_entropy_returns_32_unpredictable_bytes() {
    let a = hash_entropy(b"same seed");
    let b = hash_entropy(b"same seed");
    assert_eq!(a.len(), 32);
    assert_eq!(b.len(), 32);
    assert_ne!(a, b, "fresh local randomness enters every derivation");
}
