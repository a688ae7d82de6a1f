//! The ceremony's document model.
//!
//! A round's document holds exactly four sub-ceremonies. Each declares
//! its intended power counts and carries its power vectors in wire form;
//! a declared count that disagrees with the vector's length is a
//! validation failure before any cryptographic work begins.
use vstd::prelude::*;

use crate::g1::G1;
use crate::g2::G2;

verus! {

/// How a participant identifies itself to the ceremony's coordinator.
#[derive(Clone, Copy, Debug, PartialEq, Eq, Structural)]
pub enum IdType {
    EthAddress,
    EnsName,
    GithubHandle,
}

/// A request to open a contribution round, as the coordinator receives
/// it.
#[derive(Clone, Debug)]
pub struct ContributeStartRequest {
    pub id_type: IdType,
    pub id: String,
}

/// The power vectors of one sub-ceremony, in wire form: entry i of each
/// vector stands for the i-th power of the combined secret applied to the
/// respective group's generator.
#[derive(Debug)]
pub struct PowersOfTau {
    pub g1_powers: Vec<G1>,
    pub g2_powers: Vec<G2>,
}

impl PowersOfTau {
    /// Wraps the two power vectors.
    pub fn new(g1_powers: Vec<G1>, g2_powers: Vec<G2>) -> (r: PowersOfTau)
        ensures
            r.g1_powers == g1_powers,
            r.g2_powers == g2_powers,
    {
        PowersOfTau { g1_powers, g2_powers }
    }
}

/// One sub-ceremony: the declared power counts, the power vectors, and
/// the optional public commitment to the round's secret.
#[derive(Debug)]
pub struct Contribution {
    pub num_g1_powers: usize,
    pub num_g2_powers: usize,
    pub powers_of_tau: PowersOfTau,
    pub pot_pubkey: Option<G2>,
}

impl Contribution {
    /// Assembles one sub-ceremony from its parts.
    pub fn new(
        num_g1_powers: usize,
        num_g2_powers: usize,
        g1_powers: Vec<G1>,
        g2_powers: Vec<G2>,
        pot_pubkey: Option<G2>,
    ) -> (r: Contribution)
        ensures
            r.num_g1_powers == num_g1_powers,
            r.num_g2_powers == num_g2_powers,
            r.powers_of_tau.g1_powers == g1_powers,
            r.powers_of_tau.g2_powers == g2_powers,
            r.pot_pubkey == pot_pubkey,
    {
        Contribution {
            num_g1_powers,
            num_g2_powers,
            powers_of_tau: PowersOfTau::new(g1_powers, g2_powers),
            pot_pubkey,
        }
    }
}

/// A round's whole document: exactly four sub-ceremonies, each sized for
/// a different downstream use.
#[derive(Debug)]
pub struct Contributions {
    pub sub_contributions: [Contribution; 4],
}

impl Default for Contributions {
    /// The empty document: four sub-ceremonies of no powers.
    fn default() -> (r: Self)
        ensures
            forall|k: int| 0 <= k < 4 ==> {
                let c = #[trigger] r.sub_contributions@[k];
                c.num_g1_powers == 0 && c.num_g2_powers == 0
                    && c.powers_of_tau.g1_powers@.len() == 0
                    && c.powers_of_tau.g2_powers@.len() == 0 && c.pot_pubkey is None
            },
    {
        Contributions {
            sub_contributions: [
                Contribution::new(0, 0, Vec::new(), Vec::new(), None),
                Contribution::new(0, 0, Vec::new(), Vec::new(), None),
                Contribution::new(0, 0, Vec::new(), Vec::new(), None),
                Contribution::new(0, 0, Vec::new(), Vec::new(), None),
            ],
        }
    }
}

/// Whether one sub-ceremony's declared counts agree with its vectors.
pub open spec fn sub_lengths_ok(c: Contribution) -> bool {
    &&& c.num_g1_powers == c.powers_of_tau.g1_powers@.len()
    &&& c.num_g2_powers == c.powers_of_tau.g2_powers@.len()
}

/// Whether every sub-ceremony's declared counts agree with its vectors.
pub open spec fn doc_lengths_ok(cs: Contributions) -> bool {
    forall|k: int| 0 <= k < 4 ==> sub_lengths_ok(#[trigger] cs.sub_contributions@[k])
}

impl Contributions {
    /// Checks every sub-ceremony's declared counts against its vectors.
    pub fn validate_lengths(&self) -> (r: bool)
        ensures
            r == doc_lengths_ok(*self),
    {
        let subs = self.sub_contributions.as_slice();
        let mut k: usize = 0;
        let mut ok = true;
        while k < 4
            invariant
                0 <= k <= 4,
                subs@ == self.sub_contributions@,
                ok == forall|j: int|
                    0 <= j < k ==> sub_lengths_ok(#[trigger] self.sub_contributions@[j]),
            decreases 4 - k,
        {
            let c = vstd::slice::slice_index_get(subs, k);
            let this_ok = c.num_g1_powers == c.powers_of_tau.g1_powers.len()
                && c.num_g2_powers == c.powers_of_tau.g2_powers.len();
            proof {
                assert(this_ok == sub_lengths_ok(self.sub_contributions@[k as int]));
            }
            ok = ok && this_ok;
            k = k + 1;
        }
        ok
    }
}

} // verus!
