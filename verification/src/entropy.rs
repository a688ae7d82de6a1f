//! Derivation of a round's secret from caller-supplied seed bytes.
//!
//! The caller's seed is combined with process-local secure randomness and
//! hashed, so the secret stays unpredictable to anyone who knows only one
//! of the two inputs.
use rand::Rng;
use sha2::{Digest, Sha256};
use vstd::prelude::*;

verus! {

/// The fixed-output cryptographic digest of a byte string.
pub uninterp spec fn sha256_of(data: Seq<u8>) -> Seq<u8>;

/// Relies on Sha256::digest: the 32-byte digest of the input, a function
/// of the input bytes alone.
#[verifier::external_body]
fn sha256(data: &[u8]) -> (r: Vec<u8>)
    ensures
        r@ == sha256_of(data@),
        r@.len() == 32,
{
    Sha256::digest(data).to_vec()
}

/// Relies on rand::thread_rng and Rng::gen: 32 bytes of process-local
/// cryptographically secure randomness. Nothing is promised of the values
/// beyond the length; every outcome is acceptable.
#[verifier::external_body]
fn local_randomness() -> (r: Vec<u8>)
    ensures
        r@.len() == 32,
{
    let bytes: [u8; 32] = rand::thread_rng().gen();
    bytes.to_vec()
}

/// The digest of a seed concatenated with a chosen block of local
/// randomness: the deterministic half of secret derivation, verified for
/// every value the randomness source may hand back.
pub fn derive_secret(seed: &[u8], local: &Vec<u8>) -> (r: Vec<u8>)
    ensures
        r@ == sha256_of(seed@ + local@),
        r@.len() == 32,
{
    let mut buf: Vec<u8> = Vec::new();
    let mut i: usize = 0;
    while i < seed.len()
        invariant
            0 <= i <= seed@.len(),
            buf@.len() == i,
            forall|j: int| 0 <= j < i ==> buf@[j] == seed@[j],
        decreases seed@.len() - i,
    {
        buf.push(seed[i]);
        i = i + 1;
    }
    let mut i: usize = 0;
    while i < local.len()
        invariant
            0 <= i <= local@.len(),
            buf@.len() == seed@.len() + i,
            forall|j: int| 0 <= j < seed@.len() ==> buf@[j] == seed@[j],
            forall|j: int| 0 <= j < i ==> buf@[seed@.len() + j] == local@[j],
        decreases local@.len() - i,
    {
        buf.push(local[i]);
        i = i + 1;
    }
    proof {
        assert(buf@ =~= seed@ + local@);
    }
    sha256(buf.as_slice())
}

/// Hashes the caller's seed together with 32 bytes of fresh local
/// randomness into the 32-byte secret of one contribution round.
pub fn hash_entropy(seed: &[u8]) -> (r: Vec<u8>)
    ensures
        r@.len() == 32,
        exists|local: Seq<u8>| local.len() == 32 && r@ == sha256_of(seed@ + local),
{
    let local = local_randomness();
    let r = derive_secret(seed, &local);
    proof {
        assert(local@.len() == 32 && r@ == sha256_of(seed@ + local@));
    }
    r
}

} // verus!
