//! Elements of the scalar field of the curve.
//!
//! A contribution's secret is one scalar, and every power table entry is a
//! scalar. The executable representation is the curve library's field
//! element; the contracts speak of its canonical integer value, carried as
//! a ghost component and bounded by the field order.
use ark_bls12_381::{Fr, FrParameters};
use ark_ff::{Fp256, One, PrimeField};
use vstd::prelude::*;

verus! {

#[verifier::external_type_specification]
#[verifier::external_body]
#[verifier::reject_recursive_types(P)]
pub struct ExFp256<P>(Fp256<P>);

#[verifier::external_type_specification]
#[verifier::external_body]
pub struct ExFrParameters(FrParameters);

/// The order of the scalar field.
pub open spec fn scalar_modulus() -> int {
    0x73eda753299d7d483339d80809a1d80553bda402fffe5bfeffffffff00000001int
}

/// The integer a byte string denotes when read little-endian.
pub open spec fn le_bytes_int(s: Seq<u8>) -> int
    decreases s.len(),
{
    if s.len() == 0 {
        0
    } else {
        s[0] + 256 * le_bytes_int(s.subrange(1, s.len() as int))
    }
}

/// The e-th power of a value, reduced modulo the scalar field order.
pub open spec fn pow_mod(base: int, e: nat) -> int
    decreases e,
{
    if e == 0 {
        1
    } else {
        (base * pow_mod(base, (e - 1) as nat)) % scalar_modulus()
    }
}

/// An element of the scalar field. Its view is the element's canonical
/// integer value, which all contracts speak of.
#[derive(Clone, Copy)]
pub struct Scalar {
    inner: Fr,
    value: Ghost<int>,
}

impl View for Scalar {
    type V = int;

    closed spec fn view(&self) -> int {
        self.value@
    }
}

impl Scalar {
    #[verifier::type_invariant]
    spec fn wf(self) -> bool {
        0 <= self.value@ < scalar_modulus()
    }

    /// Relies on Fr::from_le_bytes_mod_order: the bytes are read as a
    /// little-endian integer and reduced modulo the field order.
    #[verifier::external_body]
    pub fn from_le_bytes(bytes: &[u8]) -> (s: Scalar)
        ensures
            s@ == le_bytes_int(bytes@) % scalar_modulus(),
    {
        Scalar { inner: Fr::from_le_bytes_mod_order(bytes), value: Ghost(arbitrary()) }
    }

    /// Relies on Fr::one: the multiplicative identity of the field, with
    /// canonical value one.
    #[verifier::external_body]
    pub fn one() -> (s: Scalar)
        ensures
            s@ == 1,
    {
        Scalar { inner: Fr::one(), value: Ghost(arbitrary()) }
    }

    /// Relies on the field multiplication of Fr: the canonical value of a
    /// product is the product of the canonical values, reduced modulo the
    /// field order.
    #[verifier::external_body]
    pub fn mul_mod(&self, other: &Scalar) -> (r: Scalar)
        ensures
            r@ == (self@ * other@) % scalar_modulus(),
    {
        Scalar { inner: self.inner * other.inner, value: Ghost(arbitrary()) }
    }

    /// The raw field element, for the curve backend.
    pub(crate) fn raw(&self) -> &Fr {
        &self.inner
    }
}

/// The table of the first n powers of tau: entry i holds tau to the i-th
/// power, reduced modulo the scalar field order. Every sub-ceremony draws
/// from one such table, computed once per contribution round.
pub fn power_table(tau: &Scalar, n: usize) -> (v: Vec<Scalar>)
    ensures
        v@.len() == n,
        forall|i: int| 0 <= i < n ==> #[trigger] v@[i]@ == pow_mod(tau@, i as nat),
{
    let mut v: Vec<Scalar> = Vec::new();
    let mut cur = Scalar::one();
    let mut i: usize = 0;
    while i < n
        invariant
            0 <= i <= n,
            v@.len() == i,
            cur@ == pow_mod(tau@, i as nat),
            forall|j: int| 0 <= j < i ==> #[trigger] v@[j]@ == pow_mod(tau@, j as nat),
        decreases n - i,
    {
        v.push(cur);
        let prev = cur;
        cur = cur.mul_mod(tau);
        proof {
            let e = (i + 1) as nat;
            assert((e - 1) as nat == i as nat);
            assert(pow_mod(tau@, e) == (tau@ * pow_mod(tau@, (e - 1) as nat)) % scalar_modulus());
            assert(cur@ == (prev@ * tau@) % scalar_modulus());
            assert(prev@ * tau@ == tau@ * prev@);
        }
        i = i + 1;
    }
    v
}

} // verus!
