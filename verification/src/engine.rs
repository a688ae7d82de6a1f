//! The contribution engine.
//!
//! One round folds a fresh secret into a previous document: the secret
//! becomes one scalar, shared by all four sub-ceremonies; the canonical
//! (largest) vectors are decoded, every entry is multiplied by the
//! matching power of the scalar, the results are batch-converted back to
//! affine form and subgroup-checked, and each sub-ceremony is re-derived
//! as a prefix of the updated canonical vectors. Any failure rejects the
//! round whole: no partial document is ever returned.
use vstd::prelude::*;
use vstd::slice::slice_index_get;

use crate::contribution::{doc_lengths_ok, Contribution, Contributions};
use crate::errors::CeremonyError;
use crate::flags::{ark_of_wire, lemma_ark_round_trip, wire_of_ark};
use crate::g1::{
    g1_batch_to_affine, g1_mul_repr, g1_subgroup, g1_wire_ok, G1Point, G1Proj, G1,
};
use crate::g2::{g2_generator_wire, g2_mul_repr, g2_subgroup, g2_wire_ok, G2Point, G2};
use crate::scalar::{le_bytes_int, pow_mod, power_table, scalar_modulus, Scalar};

verus! {

/// The scalar a 32-byte secret denotes: its little-endian value reduced
/// modulo the scalar field order.
pub open spec fn tau_of(secret: Seq<u8>) -> int {
    le_bytes_int(secret) % scalar_modulus()
}

/// The sub-ceremony whose declared G1 count is largest, the first such
/// on a tie: the canonical source of the updated G1 vector.
pub open spec fn canon_g1_idx(cs: Contributions) -> int {
    let n0 = cs.sub_contributions@[0].num_g1_powers;
    let n1 = cs.sub_contributions@[1].num_g1_powers;
    let n2 = cs.sub_contributions@[2].num_g1_powers;
    let n3 = cs.sub_contributions@[3].num_g1_powers;
    if n0 >= n1 && n0 >= n2 && n0 >= n3 {
        0
    } else if n1 >= n2 && n1 >= n3 {
        1
    } else if n2 >= n3 {
        2
    } else {
        3
    }
}

/// The sub-ceremony whose declared G2 count is largest, the first such
/// on a tie: the canonical source of the updated G2 vector.
pub open spec fn canon_g2_idx(cs: Contributions) -> int {
    let n0 = cs.sub_contributions@[0].num_g2_powers;
    let n1 = cs.sub_contributions@[1].num_g2_powers;
    let n2 = cs.sub_contributions@[2].num_g2_powers;
    let n3 = cs.sub_contributions@[3].num_g2_powers;
    if n0 >= n1 && n0 >= n2 && n0 >= n3 {
        0
    } else if n1 >= n2 && n1 >= n3 {
        1
    } else if n2 >= n3 {
        2
    } else {
        3
    }
}

/// The canonical G1 vector of a document.
pub open spec fn src_g1(cs: Contributions) -> Seq<G1> {
    cs.sub_contributions@[canon_g1_idx(cs)].powers_of_tau.g1_powers@
}

/// The canonical G2 vector of a document.
pub open spec fn src_g2(cs: Contributions) -> Seq<G2> {
    cs.sub_contributions@[canon_g2_idx(cs)].powers_of_tau.g2_powers@
}

/// Whether every canonical wire value decodes to a point on the curve.
pub open spec fn decodes_ok(cs: Contributions) -> bool {
    &&& forall|i: int| 0 <= i < src_g1(cs).len() ==> g1_wire_ok((#[trigger] src_g1(cs)[i])@)
    &&& forall|i: int| 0 <= i < src_g2(cs).len() ==> g2_wire_ok((#[trigger] src_g2(cs)[i])@)
}

/// Whether every decoded canonical point lies in its prime-order
/// subgroup.
pub open spec fn inputs_in_subgroup(cs: Contributions) -> bool {
    &&& forall|i: int|
        0 <= i < src_g1(cs).len() ==> g1_subgroup(ark_of_wire((#[trigger] src_g1(cs)[i])@))
    &&& forall|i: int|
        0 <= i < src_g2(cs).len() ==> g2_subgroup(ark_of_wire((#[trigger] src_g2(cs)[i])@))
}

/// The canonical serialization of the i-th updated G1 entry: the i-th
/// previous canonical point multiplied by the i-th power of the secret.
pub open spec fn g1_new_repr(cs: Contributions, tau: int, i: int) -> Seq<u8> {
    g1_mul_repr(ark_of_wire(src_g1(cs)[i]@), pow_mod(tau, i as nat))
}

/// The canonical serialization of the i-th updated G2 entry.
pub open spec fn g2_new_repr(cs: Contributions, tau: int, i: int) -> Seq<u8> {
    g2_mul_repr(ark_of_wire(src_g2(cs)[i]@), pow_mod(tau, i as nat))
}

/// The canonical serialization of the round's public commitment: the
/// extension-field generator multiplied by the secret itself.
pub open spec fn pubkey_repr(tau: int) -> Seq<u8> {
    g2_mul_repr(ark_of_wire(g2_generator_wire()), tau)
}

/// Whether every updated point lies in its prime-order subgroup.
pub open spec fn outputs_in_subgroup(cs: Contributions, tau: int) -> bool {
    &&& forall|i: int| 0 <= i < src_g1(cs).len() ==> g1_subgroup(#[trigger] g1_new_repr(cs, tau, i))
    &&& forall|i: int| 0 <= i < src_g2(cs).len() ==> g2_subgroup(#[trigger] g2_new_repr(cs, tau, i))
}

/// Whether a round succeeds: the declared lengths agree, every canonical
/// wire value decodes, and every decoded and every updated point lies in
/// its subgroup.
pub open spec fn contribute_accepts(cs: Contributions, tau: int) -> bool {
    &&& doc_lengths_ok(cs)
    &&& decodes_ok(cs)
    &&& inputs_in_subgroup(cs)
    &&& outputs_in_subgroup(cs, tau)
}

/// What one updated sub-ceremony holds: the counts of its predecessor,
/// vectors that are prefixes of the updated canonical vectors, an
/// unchanged entry zero, and the round's public commitment.
pub open spec fn sub_updated(prev: Contributions, tau: int, o: Contribution, k: int) -> bool {
    let p = prev.sub_contributions@[k];
    &&& o.num_g1_powers == p.num_g1_powers
    &&& o.num_g2_powers == p.num_g2_powers
    &&& o.powers_of_tau.g1_powers@.len() == p.num_g1_powers
    &&& o.powers_of_tau.g2_powers@.len() == p.num_g2_powers
    &&& forall|i: int|
        0 <= i < o.powers_of_tau.g1_powers@.len() ==> (#[trigger] o.powers_of_tau.g1_powers@[i])@
            == wire_of_ark(g1_new_repr(prev, tau, i))
    &&& forall|i: int|
        0 <= i < o.powers_of_tau.g2_powers@.len() ==> (#[trigger] o.powers_of_tau.g2_powers@[i])@
            == wire_of_ark(g2_new_repr(prev, tau, i))
    &&& (o.powers_of_tau.g1_powers@.len() > 0 ==> o.powers_of_tau.g1_powers@[0]@ == src_g1(
        prev,
    )[0]@)
    &&& (o.powers_of_tau.g2_powers@.len() > 0 ==> o.powers_of_tau.g2_powers@[0]@ == src_g2(
        prev,
    )[0]@)
    &&& (o.pot_pubkey matches Some(pk) && pk@ == wire_of_ark(pubkey_repr(tau)))
}

/// What a successful round returns: every sub-ceremony updated from the
/// same secret.
pub open spec fn contribute_post(prev: Contributions, tau: int, out: Contributions) -> bool {
    forall|k: int| 0 <= k < 4 ==> sub_updated(prev, tau, #[trigger] out.sub_contributions@[k], k)
}

/// The canonical index really attains the maximum count, so every
/// sub-ceremony's vector fits inside the canonical one.
pub proof fn lemma_canon_max(cs: Contributions)
    ensures
        0 <= canon_g1_idx(cs) < 4,
        0 <= canon_g2_idx(cs) < 4,
        forall|k: int|
            0 <= k < 4 ==> (#[trigger] cs.sub_contributions@[k]).num_g1_powers
                <= cs.sub_contributions@[canon_g1_idx(cs)].num_g1_powers,
        forall|k: int|
            0 <= k < 4 ==> (#[trigger] cs.sub_contributions@[k]).num_g2_powers
                <= cs.sub_contributions@[canon_g2_idx(cs)].num_g2_powers,
{
}

/// The executable form of `canon_g1_idx`.
fn canon_g1_index(cs: &Contributions) -> (k: usize)
    ensures
        k < 4,
        k as int == canon_g1_idx(*cs),
{
    let subs = cs.sub_contributions.as_slice();
    let n0 = slice_index_get(subs, 0).num_g1_powers;
    let n1 = slice_index_get(subs, 1).num_g1_powers;
    let n2 = slice_index_get(subs, 2).num_g1_powers;
    let n3 = slice_index_get(subs, 3).num_g1_powers;
    if n0 >= n1 && n0 >= n2 && n0 >= n3 {
        0
    } else if n1 >= n2 && n1 >= n3 {
        1
    } else if n2 >= n3 {
        2
    } else {
        3
    }
}

/// The executable form of `canon_g2_idx`.
fn canon_g2_index(cs: &Contributions) -> (k: usize)
    ensures
        k < 4,
        k as int == canon_g2_idx(*cs),
{
    let subs = cs.sub_contributions.as_slice();
    let n0 = slice_index_get(subs, 0).num_g2_powers;
    let n1 = slice_index_get(subs, 1).num_g2_powers;
    let n2 = slice_index_get(subs, 2).num_g2_powers;
    let n3 = slice_index_get(subs, 3).num_g2_powers;
    if n0 >= n1 && n0 >= n2 && n0 >= n3 {
        0
    } else if n1 >= n2 && n1 >= n3 {
        1
    } else if n2 >= n3 {
        2
    } else {
        3
    }
}

/// Re-derives one sub-ceremony as a prefix of the updated canonical
/// point vectors, re-encoding each point into wire form.
fn rebuild_sub(
    num1: usize,
    num2: usize,
    news1: &Vec<G1Point>,
    news2: &Vec<G2Point>,
    pubkey: &G2Point,
) -> (o: Contribution)
    requires
        num1 <= news1@.len(),
        num2 <= news2@.len(),
    ensures
        o.num_g1_powers == num1,
        o.num_g2_powers == num2,
        o.powers_of_tau.g1_powers@.len() == num1,
        o.powers_of_tau.g2_powers@.len() == num2,
        forall|i: int|
            0 <= i < num1 ==> (#[trigger] o.powers_of_tau.g1_powers@[i])@ == wire_of_ark(
                news1@[i]@,
            ),
        forall|i: int|
            0 <= i < num2 ==> (#[trigger] o.powers_of_tau.g2_powers@[i])@ == wire_of_ark(
                news2@[i]@,
            ),
        o.pot_pubkey matches Some(pk) && pk@ == wire_of_ark(pubkey@),
{
    let mut w1: Vec<G1> = Vec::new();
    let mut i: usize = 0;
    while i < num1
        invariant
            0 <= i <= num1,
            num1 <= news1@.len(),
            w1@.len() == i,
            forall|j: int| 0 <= j < i ==> (#[trigger] w1@[j])@ == wire_of_ark(news1@[j]@),
        decreases num1 - i,
    {
        w1.push(news1[i].encode());
        i = i + 1;
    }
    let mut w2: Vec<G2> = Vec::new();
    let mut i: usize = 0;
    while i < num2
        invariant
            0 <= i <= num2,
            num2 <= news2@.len(),
            w2@.len() == i,
            forall|j: int| 0 <= j < i ==> (#[trigger] w2@[j])@ == wire_of_ark(news2@[j]@),
        decreases num2 - i,
    {
        w2.push(news2[i].encode());
        i = i + 1;
    }
    Contribution::new(num1, num2, w1, w2, Some(pubkey.encode()))
}

/// The canonical G1 vector fully decoded: every wire value was
/// decodable, and entry by entry the points carry the recovered
/// serializations.
spec fn g1_decoded(prev: Contributions, pts: Seq<G1Point>) -> bool {
    &&& pts.len() == src_g1(prev).len()
    &&& forall|j: int| 0 <= j < pts.len() ==> g1_wire_ok((#[trigger] src_g1(prev)[j])@)
    &&& forall|j: int| 0 <= j < pts.len() ==> (#[trigger] pts[j])@ == ark_of_wire(src_g1(prev)[j]@)
}

/// The canonical G2 vector fully decoded.
spec fn g2_decoded(prev: Contributions, pts: Seq<G2Point>) -> bool {
    &&& pts.len() == src_g2(prev).len()
    &&& forall|j: int| 0 <= j < pts.len() ==> g2_wire_ok((#[trigger] src_g2(prev)[j])@)
    &&& forall|j: int| 0 <= j < pts.len() ==> (#[trigger] pts[j])@ == ark_of_wire(src_g2(prev)[j]@)
}

/// The updated canonical G1 points: entry i is the i-th previous point
/// multiplied by the i-th power of the secret, and entry zero is the
/// previous entry zero unchanged.
spec fn g1_updated(prev: Contributions, tau: int, news: Seq<G1Point>) -> bool {
    &&& news.len() == src_g1(prev).len()
    &&& forall|j: int| 0 <= j < news.len() ==> (#[trigger] news[j])@ == g1_new_repr(prev, tau, j)
    &&& (news.len() > 0 ==> news[0]@ == ark_of_wire(src_g1(prev)[0]@))
}

/// The updated canonical G2 points.
spec fn g2_updated(prev: Contributions, tau: int, news: Seq<G2Point>) -> bool {
    &&& news.len() == src_g2(prev).len()
    &&& forall|j: int| 0 <= j < news.len() ==> (#[trigger] news[j])@ == g2_new_repr(prev, tau, j)
    &&& (news.len() > 0 ==> news[0]@ == ark_of_wire(src_g2(prev)[0]@))
}

/// One participant's step in the ceremony: folds a 32-byte secret into
/// the previous document, producing the updated document, or exactly one
/// of the round's failures. The same secret drives all four
/// sub-ceremonies, and no partial document ever escapes a failure.
pub fn contribute(prev: &Contributions, secret: &[u8]) -> (r: Result<
    Contributions,
    CeremonyError,
>)
    requires
        secret@.len() == 32,
    ensures
        r is Ok <==> contribute_accepts(*prev, tau_of(secret@)),
        r matches Ok(out) ==> contribute_post(*prev, tau_of(secret@), out),
        r matches Err(e) ==> ((e == CeremonyError::ValidationError) <==> !doc_lengths_ok(*prev)),
        r matches Err(e) ==> ((e == CeremonyError::PointDecodeError) <==> (doc_lengths_ok(*prev)
            && !decodes_ok(*prev))),
        r matches Err(e) ==> ((e == CeremonyError::InvalidContribution) <==> (doc_lengths_ok(*prev)
            && decodes_ok(*prev) && !(inputs_in_subgroup(*prev) && outputs_in_subgroup(
            *prev,
            tau_of(secret@),
        )))),
{
    // structural validation comes first: no cryptographic work on a
    // malformed document
    if !prev.validate_lengths() {
        return Err(CeremonyError::ValidationError);
    }
    // one scalar, shared by all four sub-ceremonies
    let tau = Scalar::from_le_bytes(secret);
    let c1 = canon_g1_index(prev);
    let c2 = canon_g2_index(prev);
    let subs = prev.sub_contributions.as_slice();
    let g1_src = &slice_index_get(subs, c1).powers_of_tau.g1_powers;
    let g2_src = &slice_index_get(subs, c2).powers_of_tau.g2_powers;
    let n1 = g1_src.len();
    let n2 = g2_src.len();
    proof {
        assert(g1_src@ == src_g1(*prev));
        assert(g2_src@ == src_g2(*prev));
    }
    // decode the canonical vectors, then check every decoded point's
    // subgroup membership before any multiplication
    let mut pts1: Vec<G1Point> = Vec::new();
    let mut i: usize = 0;
    while i < n1
        invariant
            doc_lengths_ok(*prev),
            0 <= i <= n1,
            n1 == src_g1(*prev).len(),
            g1_src@ == src_g1(*prev),
            pts1@.len() == i,
            forall|j: int| 0 <= j < i ==> g1_wire_ok((#[trigger] src_g1(*prev)[j])@),
            forall|j: int| 0 <= j < i ==> (#[trigger] pts1@[j])@ == ark_of_wire(src_g1(*prev)[j]@),
        decreases n1 - i,
    {
        match g1_src[i].decode() {
            Ok(p) => {
                pts1.push(p);
            },
            Err(_) => {
                return Err(CeremonyError::PointDecodeError);
            },
        }
        i = i + 1;
    }
    let mut pts2: Vec<G2Point> = Vec::new();
    let mut i: usize = 0;
    while i < n2
        invariant
            doc_lengths_ok(*prev),
            0 <= i <= n2,
            n2 == src_g2(*prev).len(),
            g2_src@ == src_g2(*prev),
            g1_decoded(*prev, pts1@),
            pts2@.len() == i,
            forall|j: int| 0 <= j < i ==> g2_wire_ok((#[trigger] src_g2(*prev)[j])@),
            forall|j: int| 0 <= j < i ==> (#[trigger] pts2@[j])@ == ark_of_wire(src_g2(*prev)[j]@),
        decreases n2 - i,
    {
        match g2_src[i].decode() {
            Ok(p) => {
                pts2.push(p);
            },
            Err(_) => {
                return Err(CeremonyError::PointDecodeError);
            },
        }
        i = i + 1;
    }
    let mut i: usize = 0;
    while i < n1
        invariant
            doc_lengths_ok(*prev),
            0 <= i <= n1,
            n1 == src_g1(*prev).len(),
            g1_decoded(*prev, pts1@),
            g2_decoded(*prev, pts2@),
            forall|j: int|
                0 <= j < i ==> g1_subgroup(ark_of_wire((#[trigger] src_g1(*prev)[j])@)),
        decreases n1 - i,
    {
        if !pts1[i].is_in_subgroup() {
            return Err(CeremonyError::InvalidContribution);
        }
        i = i + 1;
    }
    let mut i: usize = 0;
    while i < n2
        invariant
            doc_lengths_ok(*prev),
            0 <= i <= n2,
            n2 == src_g2(*prev).len(),
            g1_decoded(*prev, pts1@),
            g2_decoded(*prev, pts2@),
            forall|j: int|
                0 <= j < src_g1(*prev).len() ==> g1_subgroup(
                    ark_of_wire((#[trigger] src_g1(*prev)[j])@),
                ),
            forall|j: int|
                0 <= j < i ==> g2_subgroup(ark_of_wire((#[trigger] src_g2(*prev)[j])@)),
        decreases n2 - i,
    {
        if !pts2[i].is_in_subgroup() {
            return Err(CeremonyError::InvalidContribution);
        }
        i = i + 1;
    }
    // the power table is computed once and feeds both groups
    let nmax = if n1 >= n2 {
        n1
    } else {
        n2
    };
    let powers = power_table(&tau, nmax);
    let mut projs: Vec<G1Proj> = Vec::new();
    let mut i: usize = 0;
    while i < n1
        invariant
            doc_lengths_ok(*prev),
            inputs_in_subgroup(*prev),
            0 <= i <= n1,
            n1 == src_g1(*prev).len(),
            n1 <= powers@.len(),
            tau@ == tau_of(secret@),
            g1_decoded(*prev, pts1@),
            g2_decoded(*prev, pts2@),
            forall|j: int| 0 <= j < powers@.len() ==> (#[trigger] powers@[j])@ == pow_mod(
                tau@,
                j as nat,
            ),
            projs@.len() == i,
            forall|j: int| 0 <= j < i ==> (#[trigger] projs@[j])@ == g1_new_repr(
                *prev,
                tau_of(secret@),
                j,
            ),
            i > 0 ==> projs@[0]@ == ark_of_wire(src_g1(*prev)[0]@),
        decreases n1 - i,
    {
        let pw = powers[i];
        let q = pts1[i].mul_scalar(&pw);
        proof {
            assert(q@ == g1_mul_repr(pts1@[i as int]@, pow_mod(tau_of(secret@), i as nat)));
            if i == 0 {
                assert(pow_mod(tau@, 0) == 1);
                assert(q@ == pts1@[0]@);
            }
        }
        projs.push(q);
        i = i + 1;
    }
    // one shared field inversion converts the whole batch back to
    // affine form
    let news1 = g1_batch_to_affine(&projs);
    proof {
        assert(g1_updated(*prev, tau_of(secret@), news1@));
    }
    let mut i: usize = 0;
    while i < n1
        invariant
            doc_lengths_ok(*prev),
            inputs_in_subgroup(*prev),
            0 <= i <= n1,
            n1 == src_g1(*prev).len(),
            tau@ == tau_of(secret@),
            g1_decoded(*prev, pts1@),
            g2_decoded(*prev, pts2@),
            g1_updated(*prev, tau_of(secret@), news1@),
            forall|j: int| 0 <= j < i ==> g1_subgroup(#[trigger] g1_new_repr(
                *prev,
                tau_of(secret@),
                j,
            )),
        decreases n1 - i,
    {
        if !news1[i].is_in_subgroup() {
            return Err(CeremonyError::InvalidContribution);
        }
        i = i + 1;
    }
    let mut news2: Vec<G2Point> = Vec::new();
    let mut i: usize = 0;
    while i < n2
        invariant
            doc_lengths_ok(*prev),
            inputs_in_subgroup(*prev),
            0 <= i <= n2,
            n2 == src_g2(*prev).len(),
            n2 <= powers@.len(),
            tau@ == tau_of(secret@),
            g1_decoded(*prev, pts1@),
            g2_decoded(*prev, pts2@),
            g1_updated(*prev, tau_of(secret@), news1@),
            forall|j: int|
                0 <= j < src_g1(*prev).len() ==> g1_subgroup(#[trigger] g1_new_repr(
                    *prev,
                    tau_of(secret@),
                    j,
                )),
            forall|j: int| 0 <= j < powers@.len() ==> (#[trigger] powers@[j])@ == pow_mod(
                tau@,
                j as nat,
            ),
            news2@.len() == i,
            forall|j: int| 0 <= j < i ==> (#[trigger] news2@[j])@ == g2_new_repr(
                *prev,
                tau_of(secret@),
                j,
            ),
            i > 0 ==> news2@[0]@ == ark_of_wire(src_g2(*prev)[0]@),
        decreases n2 - i,
    {
        let pw = powers[i];
        let q = pts2[i].mul_scalar(&pw).to_affine();
        proof {
            assert(q@ == g2_mul_repr(pts2@[i as int]@, pow_mod(tau_of(secret@), i as nat)));
            if i == 0 {
                assert(pow_mod(tau@, 0) == 1);
                assert(q@ == pts2@[0]@);
            }
        }
        news2.push(q);
        i = i + 1;
    }
    let mut i: usize = 0;
    while i < n2
        invariant
            doc_lengths_ok(*prev),
            inputs_in_subgroup(*prev),
            0 <= i <= n2,
            n2 == src_g2(*prev).len(),
            tau@ == tau_of(secret@),
            g1_decoded(*prev, pts1@),
            g2_decoded(*prev, pts2@),
            g1_updated(*prev, tau_of(secret@), news1@),
            g2_updated(*prev, tau_of(secret@), news2@),
            forall|j: int|
                0 <= j < src_g1(*prev).len() ==> g1_subgroup(#[trigger] g1_new_repr(
                    *prev,
                    tau_of(secret@),
                    j,
                )),
            forall|j: int| 0 <= j < i ==> g2_subgroup(#[trigger] g2_new_repr(
                *prev,
                tau_of(secret@),
                j,
            )),
        decreases n2 - i,
    {
        if !news2[i].is_in_subgroup() {
            return Err(CeremonyError::InvalidContribution);
        }
        i = i + 1;
    }
    // the public commitment to this round's secret
    let gen2 = G2Point::generator();
    let pubkey_pt = gen2.mul_scalar(&tau).to_affine();
    proof {
        assert(pubkey_pt@ == pubkey_repr(tau_of(secret@)));
        lemma_canon_max(*prev);
    }
    // each sub-ceremony becomes a prefix of the updated canonical
    // vectors, its declared counts preserved
    let s0 = rebuild_sub(
        slice_index_get(subs, 0).num_g1_powers,
        slice_index_get(subs, 0).num_g2_powers,
        &news1,
        &news2,
        &pubkey_pt,
    );
    let s1 = rebuild_sub(
        slice_index_get(subs, 1).num_g1_powers,
        slice_index_get(subs, 1).num_g2_powers,
        &news1,
        &news2,
        &pubkey_pt,
    );
    let s2 = rebuild_sub(
        slice_index_get(subs, 2).num_g1_powers,
        slice_index_get(subs, 2).num_g2_powers,
        &news1,
        &news2,
        &pubkey_pt,
    );
    let s3 = rebuild_sub(
        slice_index_get(subs, 3).num_g1_powers,
        slice_index_get(subs, 3).num_g2_powers,
        &news1,
        &news2,
        &pubkey_pt,
    );
    let out = Contributions { sub_contributions: [s0, s1, s2, s3] };
    proof {
        let tau_v = tau_of(secret@);
        assert forall|k: int| 0 <= k < 4 implies sub_updated(
            *prev,
            tau_v,
            out.sub_contributions@[k],
            k,
        ) by {
            let o = out.sub_contributions@[k];
            let p = prev.sub_contributions@[k];
            assert(o.num_g1_powers == p.num_g1_powers);
            if o.powers_of_tau.g1_powers@.len() > 0 {
                lemma_ark_round_trip(src_g1(*prev)[0]@);
            }
            if o.powers_of_tau.g2_powers@.len() > 0 {
                lemma_ark_round_trip(src_g2(*prev)[0]@);
            }
        }
    }
    Ok(out)
}

/// Nested-prefix invariant: after a contribution, any two sub-ceremonies
/// agree wherever both are defined, so the shorter's vectors are exact
/// prefixes of the longer's, for G1 and G2 alike.
pub proof fn lemma_nested_prefix(prev: Contributions, tau: int, out: Contributions)
    requires
        contribute_post(prev, tau, out),
    ensures
        forall|k: int, l: int, i: int|
            0 <= k < 4 && 0 <= l < 4 && 0 <= i
                < out.sub_contributions@[k].powers_of_tau.g1_powers@.len() && i
                < out.sub_contributions@[l].powers_of_tau.g1_powers@.len() ==> (
            #[trigger] out.sub_contributions@[k].powers_of_tau.g1_powers@[i])@ == (
            #[trigger] out.sub_contributions@[l].powers_of_tau.g1_powers@[i])@,
        forall|k: int, l: int, i: int|
            0 <= k < 4 && 0 <= l < 4 && 0 <= i
                < out.sub_contributions@[k].powers_of_tau.g2_powers@.len() && i
                < out.sub_contributions@[l].powers_of_tau.g2_powers@.len() ==> (
            #[trigger] out.sub_contributions@[k].powers_of_tau.g2_powers@[i])@ == (
            #[trigger] out.sub_contributions@[l].powers_of_tau.g2_powers@[i])@,
{
}

/// Generator preservation: whatever the secret, entry zero survives a
/// contribution byte for byte — if the previous canonical vectors open
/// with the fixed generators, every updated sub-ceremony still does.
/// Only the exponent basis advances; the encoded point at index zero
/// stays the generator itself.
pub proof fn lemma_generator_preserved(prev: Contributions, tau: int, out: Contributions)
    requires
        doc_lengths_ok(prev),
        contribute_post(prev, tau, out),
        src_g1(prev).len() > 0 ==> src_g1(prev)[0]@ == crate::g1::g1_generator_wire(),
        src_g2(prev).len() > 0 ==> src_g2(prev)[0]@ == g2_generator_wire(),
    ensures
        forall|k: int|
            0 <= k < 4 && (#[trigger] out.sub_contributions@[k]).powers_of_tau.g1_powers@.len() > 0
                ==> out.sub_contributions@[k].powers_of_tau.g1_powers@[0]@
                == crate::g1::g1_generator_wire(),
        forall|k: int|
            0 <= k < 4 && (#[trigger] out.sub_contributions@[k]).powers_of_tau.g2_powers@.len() > 0
                ==> out.sub_contributions@[k].powers_of_tau.g2_powers@[0]@ == g2_generator_wire(),
{
    lemma_canon_max(prev);
}

} // verus!
