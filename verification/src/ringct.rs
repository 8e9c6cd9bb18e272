//! The orchestrator: ring assembly, balance closure, signing, verifying.
//!
//! Signing picks one secret row, shared by every input column, builds
//! pseudo commitments that re-blind the consumed values, balances the
//! output blindings so the commitment sums agree, adjusts each ring's
//! second component by the pseudo commitment, and runs one ring signature
//! per input.  Verification replays every challenge chain and accepts only
//! when each one closes.

use vstd::prelude::*;

use blstrs::{G1Affine, G1Projective, Scalar};
use bls_bulletproofs::PedersenGens;
use rand_chacha::ChaCha20Rng;

use crate::commit::{p_sum, spec_scalar_sum, RevealedCommitment};
use crate::curve::{
    add_points, aff, default_gens, g_mul, gens_blinding_base, in_subgroup, is_on_curve,
    is_torsion_free, mul_affine, mul_generator, next_u32, on_curve, p_mul, p_sub, pedersen_commit,
    proj, random_scalar, s_from_u64, s_sub, scalar_add, scalar_eq, scalar_sub, scalar_zero,
    spec_commit, sub_points, to_affine, to_projective,
};
use crate::hash::{c_hash, hash_to_curve_sig};
use crate::mlsag::{
    chain_at, mlsag_closes, ringct_mlsag_sign, spec_key_image, DecoyInput, TrueInput,
};
use crate::Error;

verus! {

/// An output of the transaction: where the value goes and how much, the
/// amount here being public to the signer for balancing.
#[derive(Clone, Copy)]
pub struct Output {
    pub public_key: G1Affine,
    pub amount: Scalar,
}

/// The material a signer assembles: the inputs it can open, a matrix of
/// decoy rows, and the outputs.
pub struct RingCT {
    pub true_inputs: Vec<TrueInput>,
    pub decoy_inputs: Vec<Vec<DecoyInput>>,
    pub outputs: Vec<Output>,
}

/// The aggregate signature: per input a starting challenge, a response
/// vector and a key image.
#[derive(Debug)]
pub struct RingCTSignature {
    pub c0: Vec<Scalar>,
    pub r: Vec<Vec<(Scalar, Scalar)>>,
    pub key_images: Vec<G1Affine>,
}

/// Some decoy row does not have one entry per input column.
pub open spec fn ragged(decoys: Seq<Vec<DecoyInput>>, width: nat) -> bool {
    exists|i: int| 0 <= i < decoys.len() && (#[trigger] decoys[i])@.len() != width
}

/// What a verifier accepts: matching counts, every key image on the curve,
/// and every ring's challenge chain closing.
pub open spec fn spec_verify(msg: Seq<u8>, sig: RingCTSignature, rings: Seq<Vec<(G1Affine, G1Affine)>>) -> bool {
    &&& sig.key_images@.len() == rings.len()
    &&& sig.c0@.len() == rings.len()
    &&& sig.r@.len() == rings.len()
    &&& forall|m: int| #![trigger rings[m]]
        0 <= m < rings.len() ==> sig.r@[m]@.len() == rings[m]@.len()
    &&& forall|m: int| #![trigger sig.key_images@[m]]
        0 <= m < rings.len() ==> on_curve(sig.key_images@[m]) && in_subgroup(sig.key_images@[m])
    &&& forall|m: int| #![trigger rings[m]]
        0 <= m < rings.len() ==> mlsag_closes(msg, rings[m]@, sig.r@[m]@, sig.key_images@[m], sig.c0@[m])
}

/// What row `n` of input column `m`'s ring holds: at the secret row the
/// signer's own public key beside the consumed commitment lowered by the
/// pseudo commitment, and everywhere else the decoy rows in their given
/// order, each commitment lowered the same way.
pub open spec fn expected_ring_entry(
    decoys: Seq<Vec<DecoyInput>>,
    input: TrueInput,
    gens: PedersenGens,
    pseudo: RevealedCommitment,
    m: int,
    pi: int,
    n: int,
) -> (G1Affine, G1Affine) {
    let pseudo_point = spec_commit(gens, s_from_u64(pseudo.value), pseudo.blinding);
    if n == pi {
        (
            aff(g_mul(input.secret_key)),
            aff(p_sub(
                spec_commit(
                    gens,
                    s_from_u64(input.revealed_commitment.value),
                    input.revealed_commitment.blinding,
                ),
                pseudo_point,
            )),
        )
    } else {
        let d = if n < pi {
            n
        } else {
            n - 1
        };
        (decoys[d]@[m].public_key, aff(p_sub(proj(decoys[d]@[m].commitment), pseudo_point)))
    }
}

/// The ring of input column `m` is assembled exactly as the construction
/// prescribes, row by row.
pub open spec fn ring_assembled(
    ring: Seq<(G1Affine, G1Affine)>,
    decoys: Seq<Vec<DecoyInput>>,
    input: TrueInput,
    gens: PedersenGens,
    pseudo: RevealedCommitment,
    m: int,
    pi: int,
) -> bool {
    &&& ring.len() == decoys.len() + 1
    &&& forall|n: int| #![trigger ring[n]]
        0 <= n < ring.len() ==> ring[n] == expected_ring_entry(decoys, input, gens, pseudo, m, pi, n)
}

/// The openings drawn during one signing run, as witnesses: a shared
/// secret row, a generator pair, pseudo and output openings that fit the
/// transaction, balance, and assemble every emitted ring.
pub open spec fn sign_witness(
    material: RingCT,
    rings: Seq<Vec<(G1Affine, G1Affine)>>,
    pi: int,
    gens: PedersenGens,
    pseudo: Seq<RevealedCommitment>,
    outs: Seq<(Scalar, Scalar)>,
) -> bool {
    &&& 0 <= pi < material.decoy_inputs@.len() + 1
    &&& matches_transaction(pseudo, outs, material.true_inputs@, material.outputs@)
    &&& balance_holds(gens, pseudo, outs)
    &&& forall|m: int| #![trigger rings[m]]
        0 <= m < rings.len() ==> ring_assembled(
            rings[m]@,
            material.decoy_inputs@,
            material.true_inputs@[m],
            gens,
            pseudo[m],
            m,
            pi,
        )
}

/// Every ring carries the signer's public key in its first component at
/// row `pi`: the row the construction keeps secret and shares across all
/// input columns.
pub open spec fn true_keys_at_row(
    rings: Seq<Vec<(G1Affine, G1Affine)>>,
    true_inputs: Seq<TrueInput>,
    pi: int,
) -> bool {
    forall|m: int| #![trigger rings[m]]
        0 <= m < rings.len() ==> rings[m]@[pi].0 == aff(g_mul(true_inputs[m].secret_key))
}

/// The pseudo and output openings drawn during signing fit the
/// transaction: values carried over input by input, amounts output by
/// output.
pub open spec fn matches_transaction(
    pseudo: Seq<RevealedCommitment>,
    outs: Seq<(Scalar, Scalar)>,
    true_inputs: Seq<TrueInput>,
    outputs: Seq<Output>,
) -> bool {
    &&& pseudo.len() == true_inputs.len()
    &&& forall|m: int| 0 <= m < pseudo.len() ==> (#[trigger] pseudo[m]).value
        == true_inputs[m].revealed_commitment.value
    &&& outs.len() == outputs.len()
    &&& forall|k: int| 0 <= k < outs.len() ==> (#[trigger] outs[k]).0 == outputs[k].amount
}

pub open spec fn pseudo_commitment_points(gens: PedersenGens, cs: Seq<RevealedCommitment>) -> Seq<G1Projective> {
    cs.map_values(|c: RevealedCommitment| spec_commit(gens, s_from_u64(c.value), c.blinding))
}

pub open spec fn output_commitment_points(gens: PedersenGens, os: Seq<(Scalar, Scalar)>) -> Seq<G1Projective> {
    os.map_values(|o: (Scalar, Scalar)| spec_commit(gens, o.0, o.1))
}

/// The balance the construction closes: the output blindings sum to the
/// pseudo blindings, and the pseudo commitments sum to the output
/// commitments as a group identity.
pub open spec fn balance_holds(
    gens: PedersenGens,
    pseudo: Seq<RevealedCommitment>,
    outs: Seq<(Scalar, Scalar)>,
) -> bool {
    &&& spec_scalar_sum(outs.map_values(|o: (Scalar, Scalar)| o.1))
        == spec_scalar_sum(pseudo.map_values(|c: RevealedCommitment| c.blinding))
    &&& p_sum(pseudo_commitment_points(gens, pseudo)) == p_sum(output_commitment_points(gens, outs))
}

/// Everything a successful signing promises: as many rings as inputs,
/// each of ring size; each key image the deterministic image of its
/// input's spending key; a signature the verifier accepts; the true keys
/// at one shared secret row; and openings drawn during signing that fit
/// the transaction and balance, blinding sums and commitment sums alike.
pub open spec fn sign_produces(
    material: RingCT,
    msg: Seq<u8>,
    sig: RingCTSignature,
    rings: Seq<Vec<(G1Affine, G1Affine)>>,
) -> bool {
    &&& rings.len() == material.true_inputs@.len()
    &&& forall|m: int| 0 <= m < rings.len() ==> (#[trigger] rings[m])@.len()
        == material.decoy_inputs@.len() + 1
    &&& forall|m: int| #![trigger sig.key_images@[m]]
        0 <= m < rings.len() ==> sig.key_images@[m] == aff(spec_key_image(
            material.true_inputs@[m].secret_key,
        ))
    &&& spec_verify(msg, sig, rings)
    &&& exists|pi: int|
        0 <= pi < material.decoy_inputs@.len() + 1 && #[trigger] true_keys_at_row(
            rings,
            material.true_inputs@,
            pi,
        )
    &&& exists|pi: int, gens: PedersenGens, pseudo: Seq<RevealedCommitment>, outs: Seq<(Scalar, Scalar)>|
        #[trigger] sign_witness(material, rings, pi, gens, pseudo, outs)
}

/// Fresh pseudo commitments: the same values as the consumed inputs under
/// fresh blindings.
pub fn build_pseudo_commitments(
    true_inputs: &Vec<TrueInput>,
    rng: &mut ChaCha20Rng,
) -> (r: Vec<RevealedCommitment>)
    ensures
        r@.len() == true_inputs@.len(),
        forall|m: int| 0 <= m < r@.len() ==> (#[trigger] r@[m]).value
            == true_inputs@[m].revealed_commitment.value,
{
    let mut out: Vec<RevealedCommitment> = Vec::new();
    let mut m: usize = 0;
    while m < true_inputs.len()
        invariant
            m <= true_inputs@.len(),
            out@.len() == m,
            forall|i: int| 0 <= i < m ==> (#[trigger] out@[i]).value
                == true_inputs@[i].revealed_commitment.value,
        decreases true_inputs@.len() - m,
    {
        let b = random_scalar(rng);
        out.push(RevealedCommitment { value: true_inputs[m].revealed_commitment.value, blinding: b });
        m = m + 1;
    }
    out
}

/// Output openings, one per output: every blinding but the last is fresh,
/// and the last is the correction that makes the blinding sums equal.
pub fn build_output_commitments(
    outputs: &Vec<Output>,
    pseudo: &Vec<RevealedCommitment>,
    rng: &mut ChaCha20Rng,
) -> (res: Result<Vec<(Scalar, Scalar)>, Error>)
    ensures
        (res matches Err(e) ==> e == Error::EmptyOutputs),
        (res is Err <==> outputs@.len() == 0),
        (res matches Ok(cs) ==> {
            &&& cs@.len() == outputs@.len()
            &&& forall|k: int| 0 <= k < cs@.len() ==> (#[trigger] cs@[k]).0 == outputs@[k].amount
            &&& spec_scalar_sum(cs@.map_values(|o: (Scalar, Scalar)| o.1))
                == spec_scalar_sum(pseudo@.map_values(|c: RevealedCommitment| c.blinding))
        }),
{
    if outputs.len() == 0 {
        return Err(Error::EmptyOutputs);
    }

    let mut pseudo_sum = scalar_zero();
    let mut i: usize = 0;
    proof {
        assert(pseudo@.take(0).map_values(|c: RevealedCommitment| c.blinding) =~= Seq::<Scalar>::empty());
    }
    while i < pseudo.len()
        invariant
            i <= pseudo@.len(),
            pseudo_sum == spec_scalar_sum(pseudo@.take(i as int).map_values(|c: RevealedCommitment| c.blinding)),
        decreases pseudo@.len() - i,
    {
        pseudo_sum = scalar_add(&pseudo_sum, &pseudo[i].blinding);
        proof {
            let f = |c: RevealedCommitment| c.blinding;
            assert(pseudo@.take(i + 1).map_values(f).drop_last() =~= pseudo@.take(i as int).map_values(f));
            assert(pseudo@.take(i + 1).map_values(f).last() == pseudo@[i as int].blinding);
        }
        i = i + 1;
    }
    proof {
        assert(pseudo@.take(pseudo@.len() as int) =~= pseudo@);
    }

    let mut cs: Vec<(Scalar, Scalar)> = Vec::new();
    let mut partial = scalar_zero();
    let mut k: usize = 0;
    proof {
        assert(cs@.map_values(|o: (Scalar, Scalar)| o.1) =~= Seq::<Scalar>::empty());
    }
    while k < outputs.len() - 1
        invariant
            outputs@.len() >= 1,
            k <= outputs@.len() - 1,
            cs@.len() == k,
            forall|j: int| 0 <= j < k ==> (#[trigger] cs@[j]).0 == outputs@[j].amount,
            partial == spec_scalar_sum(cs@.map_values(|o: (Scalar, Scalar)| o.1)),
        decreases outputs@.len() - 1 - k,
    {
        let b = random_scalar(rng);
        let ghost cs_old = cs@;
        cs.push((outputs[k].amount, b));
        partial = scalar_add(&partial, &b);
        proof {
            let f = |o: (Scalar, Scalar)| o.1;
            assert(cs@.map_values(f).drop_last() =~= cs_old.map_values(f));
            assert(cs@.map_values(f).last() == b);
        }
        k = k + 1;
    }

    let correction = scalar_sub(&pseudo_sum, &partial);
    let ghost cs_old = cs@;
    cs.push((outputs[outputs.len() - 1].amount, correction));
    proof {
        let f = |o: (Scalar, Scalar)| o.1;
        assert(cs@.map_values(f).drop_last() =~= cs_old.map_values(f));
        assert(cs@.map_values(f).last() == correction);
    }
    Ok(cs)
}

impl RingCT {
    /// Signs the message over this material.
    ///
    /// Fails fast on a ragged decoy matrix or empty outputs; afterwards
    /// the only failure is a group identity the construction guarantees
    /// not holding, which would mean defective curve arithmetic.  On
    /// success the emitted signature verifies, every key image is the
    /// deterministic image of its input's spending key, the true public
    /// keys sit at one shared secret row, and the pseudo commitments
    /// balance the output commitments.
    #[verifier::loop_isolation(false)]
    #[verifier::rlimit(60)]
    pub fn sign(&self, msg: &[u8], rng: &mut ChaCha20Rng) -> (res: Result<
        (RingCTSignature, Vec<Vec<(G1Affine, G1Affine)>>),
        Error,
    >)
        requires
            self.decoy_inputs@.len() < usize::MAX,
        ensures
            ((res matches Err(Error::RaggedDecoyMatrix)) <==> ragged(
                self.decoy_inputs@,
                self.true_inputs@.len(),
            )),
            (!ragged(self.decoy_inputs@, self.true_inputs@.len()) ==> ((res matches Err(
                Error::EmptyOutputs,
            )) <==> self.outputs@.len() == 0)),
            (res matches Err(e) ==> (e == Error::RaggedDecoyMatrix || e == Error::EmptyOutputs
                || e == Error::ArithmeticIdentity)),
            (res matches Ok(p) ==> sign_produces(*self, msg@, p.0, p.1@)),
            (!ragged(self.decoy_inputs@, self.true_inputs@.len()) && self.outputs@.len() >= 1
                && spec_scalar_sum(
                self.true_inputs@.map_values(|t: TrueInput| s_from_u64(t.revealed_commitment.value)),
            ) == spec_scalar_sum(self.outputs@.map_values(|o: Output| o.amount)) ==> res is Ok),
    {
        let n_inputs = self.true_inputs.len();
        let n_decoy_rows = self.decoy_inputs.len();
        let ring_size = n_decoy_rows + 1;

        // Precondition: every decoy row must be as wide as the input row.
        let mut d: usize = 0;
        while d < n_decoy_rows
            invariant
                d <= self.decoy_inputs@.len(),
                n_decoy_rows == self.decoy_inputs@.len(),
                n_inputs == self.true_inputs@.len(),
                forall|i: int| 0 <= i < d ==> (#[trigger] self.decoy_inputs@[i])@.len() == n_inputs,
            decreases self.decoy_inputs@.len() - d,
        {
            if self.decoy_inputs[d].len() != n_inputs {
                return Err(Error::RaggedDecoyMatrix);
            }
            d = d + 1;
        }

        let pseudo = build_pseudo_commitments(&self.true_inputs, rng);
        let outs = match build_output_commitments(&self.outputs, &pseudo, rng) {
            Ok(cs) => cs,
            Err(e) => {
                return Err(e);
            },
        };

        let gens = default_gens();

        // Whether the supplied amounts balance; when they do, every later
        // identity check is provably dead and signing must succeed.
        let ghost balanced = spec_scalar_sum(
            self.true_inputs@.map_values(|t: TrueInput| s_from_u64(t.revealed_commitment.value)),
        ) == spec_scalar_sum(self.outputs@.map_values(|o: Output| o.amount));

        // The balance the blinding correction just closed, as a group
        // identity over the commitments themselves.  Each fold is tracked
        // both as the sum of the commitment points and, through the
        // commitment homomorphism, as one commitment to the summed values
        // and blindings.
        let base = mul_generator(&scalar_zero());
        let mut pseudo_pt_sum = base;
        let mut m: usize = 0;
        proof {
            assert(pseudo_commitment_points(gens, pseudo@.take(0)) =~= Seq::<G1Projective>::empty());
            assert(pseudo@.take(0).map_values(|c: RevealedCommitment| s_from_u64(c.value))
                =~= Seq::<Scalar>::empty());
            assert(pseudo@.take(0).map_values(|c: RevealedCommitment| c.blinding)
                =~= Seq::<Scalar>::empty());
        }
        while m < pseudo.len()
            invariant
                m <= pseudo@.len(),
                pseudo_pt_sum == p_sum(pseudo_commitment_points(gens, pseudo@.take(m as int))),
                pseudo_pt_sum == spec_commit(
                    gens,
                    spec_scalar_sum(
                        pseudo@.take(m as int).map_values(|c: RevealedCommitment| s_from_u64(c.value)),
                    ),
                    spec_scalar_sum(
                        pseudo@.take(m as int).map_values(|c: RevealedCommitment| c.blinding),
                    ),
                ),
            decreases pseudo@.len() - m,
        {
            let pt = pseudo[m].commit(&gens);
            pseudo_pt_sum = add_points(&pseudo_pt_sum, &pt);
            proof {
                assert(pseudo_commitment_points(gens, pseudo@.take(m + 1)).drop_last()
                    =~= pseudo_commitment_points(gens, pseudo@.take(m as int)));
                assert(pseudo_commitment_points(gens, pseudo@.take(m + 1)).last() == pt);
                let fv = |c: RevealedCommitment| s_from_u64(c.value);
                let fb = |c: RevealedCommitment| c.blinding;
                assert(pseudo@.take(m + 1).map_values(fv).drop_last()
                    =~= pseudo@.take(m as int).map_values(fv));
                assert(pseudo@.take(m + 1).map_values(fv).last() == s_from_u64(pseudo@[m as int].value));
                assert(pseudo@.take(m + 1).map_values(fb).drop_last()
                    =~= pseudo@.take(m as int).map_values(fb));
                assert(pseudo@.take(m + 1).map_values(fb).last() == pseudo@[m as int].blinding);
            }
            m = m + 1;
        }
        proof {
            assert(pseudo@.take(pseudo@.len() as int) =~= pseudo@);
        }

        let mut out_pt_sum = base;
        let mut k: usize = 0;
        proof {
            assert(output_commitment_points(gens, outs@.take(0)) =~= Seq::<G1Projective>::empty());
            assert(outs@.take(0).map_values(|o: (Scalar, Scalar)| o.0) =~= Seq::<Scalar>::empty());
            assert(outs@.take(0).map_values(|o: (Scalar, Scalar)| o.1) =~= Seq::<Scalar>::empty());
        }
        while k < outs.len()
            invariant
                k <= outs@.len(),
                out_pt_sum == p_sum(output_commitment_points(gens, outs@.take(k as int))),
                out_pt_sum == spec_commit(
                    gens,
                    spec_scalar_sum(outs@.take(k as int).map_values(|o: (Scalar, Scalar)| o.0)),
                    spec_scalar_sum(outs@.take(k as int).map_values(|o: (Scalar, Scalar)| o.1)),
                ),
            decreases outs@.len() - k,
        {
            let pt = pedersen_commit(&gens, &outs[k].0, &outs[k].1);
            out_pt_sum = add_points(&out_pt_sum, &pt);
            proof {
                assert(output_commitment_points(gens, outs@.take(k + 1)).drop_last()
                    =~= output_commitment_points(gens, outs@.take(k as int)));
                assert(output_commitment_points(gens, outs@.take(k + 1)).last() == pt);
                let fa = |o: (Scalar, Scalar)| o.0;
                let fb = |o: (Scalar, Scalar)| o.1;
                assert(outs@.take(k + 1).map_values(fa).drop_last()
                    =~= outs@.take(k as int).map_values(fa));
                assert(outs@.take(k + 1).map_values(fa).last() == outs@[k as int].0);
                assert(outs@.take(k + 1).map_values(fb).drop_last()
                    =~= outs@.take(k as int).map_values(fb));
                assert(outs@.take(k + 1).map_values(fb).last() == outs@[k as int].1);
            }
            k = k + 1;
        }
        proof {
            assert(outs@.take(outs@.len() as int) =~= outs@);
        }

        proof {
            if balanced {
                assert(pseudo@.map_values(|c: RevealedCommitment| s_from_u64(c.value))
                    =~= self.true_inputs@.map_values(
                    |t: TrueInput| s_from_u64(t.revealed_commitment.value),
                ));
                assert(outs@.map_values(|o: (Scalar, Scalar)| o.0) =~= self.outputs@.map_values(
                    |o: Output| o.amount,
                ));
                assert(pseudo_pt_sum == out_pt_sum);
            }
        }
        if !crate::curve::point_eq(&pseudo_pt_sum, &out_pt_sum) {
            return Err(Error::ArithmeticIdentity);
        }

        // The shared secret row.
        let pi = (next_u32(rng) as usize) % ring_size;

        // One ring signature per input column.
        let mut c0s: Vec<Scalar> = Vec::new();
        let mut rs: Vec<Vec<(Scalar, Scalar)>> = Vec::new();
        let mut images: Vec<G1Affine> = Vec::new();
        let mut rings: Vec<Vec<(G1Affine, G1Affine)>> = Vec::new();
        let mut m2: usize = 0;
        while m2 < n_inputs
            invariant
                m2 <= n_inputs,
                n_inputs == self.true_inputs@.len(),
                n_decoy_rows == self.decoy_inputs@.len(),
                ring_size == n_decoy_rows + 1,
                pi < ring_size,
                pseudo@.len() == n_inputs,
                forall|i: int| 0 <= i < n_decoy_rows ==> (#[trigger] self.decoy_inputs@[i])@.len()
                    == n_inputs,
                c0s@.len() == m2,
                rs@.len() == m2,
                images@.len() == m2,
                rings@.len() == m2,
                forall|i: int| 0 <= i < m2 ==> (#[trigger] rings@[i])@.len() == ring_size,
                forall|i: int| 0 <= i < m2 ==> (#[trigger] rs@[i])@.len() == ring_size,
                forall|i: int| #![trigger images@[i]]
                    0 <= i < m2 ==> images@[i] == aff(spec_key_image(
                        self.true_inputs@[i].secret_key,
                    )) && on_curve(images@[i]) && in_subgroup(images@[i]),
                forall|i: int| #![trigger rings@[i]]
                    0 <= i < m2 ==> mlsag_closes(msg@, rings@[i]@, rs@[i]@, images@[i], c0s@[i]),
                forall|i: int| #![trigger rings@[i]]
                    0 <= i < m2 ==> rings@[i]@[pi as int].0 == aff(g_mul(
                        self.true_inputs@[i].secret_key,
                    )),
                forall|i: int| #![trigger rings@[i]]
                    0 <= i < m2 ==> ring_assembled(
                        rings@[i]@,
                        self.decoy_inputs@,
                        self.true_inputs@[i],
                        gens,
                        pseudo@[i],
                        i,
                        pi as int,
                    ),
            decreases n_inputs - m2,
        {
            let pseudo_pt = pseudo[m2].commit(&gens);
            let true_pk_p = mul_generator(&self.true_inputs[m2].secret_key);
            let true_pk = to_affine(&true_pk_p);
            let true_cm = self.true_inputs[m2].revealed_commitment.commit(&gens);
            let true_diff = sub_points(&true_cm, &pseudo_pt);
            let true_adj = to_affine(&true_diff);
            let mut ring: Vec<(G1Affine, G1Affine)> = Vec::new();
            let mut n: usize = 0;
            while n < ring_size
                invariant
                    n <= ring_size,
                    ring@.len() == n,
                    forall|j: int| #![trigger ring@[j]]
                        0 <= j < n ==> ring@[j] == expected_ring_entry(
                            self.decoy_inputs@,
                            self.true_inputs@[m2 as int],
                            gens,
                            pseudo@[m2 as int],
                            m2 as int,
                            pi as int,
                            j,
                        ),
                decreases ring_size - n,
            {
                if n == pi {
                    ring.push((true_pk, true_adj));
                } else {
                    let dsrc = if n < pi {
                        n
                    } else {
                        n - 1
                    };
                    let dec = self.decoy_inputs[dsrc][m2];
                    let cm = to_projective(&dec.commitment);
                    let diff = sub_points(&cm, &pseudo_pt);
                    let adj = to_affine(&diff);
                    ring.push((dec.public_key, adj));
                }
                n = n + 1;
            }

            // Row pi opens for this signer: the first component by
            // construction, the second because two commitments to the same
            // value differ exactly by the blinding difference over the
            // group generator.
            let ghost ring_snap = ring@;
            proof {
                assert(ring_snap[pi as int] == expected_ring_entry(
                    self.decoy_inputs@,
                    self.true_inputs@[m2 as int],
                    gens,
                    pseudo@[m2 as int],
                    m2 as int,
                    pi as int,
                    pi as int,
                ));
                assert(true_diff == p_mul(
                    gens_blinding_base(gens),
                    s_sub(
                        self.true_inputs@[m2 as int].revealed_commitment.blinding,
                        pseudo@[m2 as int].blinding,
                    ),
                ));
                assert(true_diff == g_mul(s_sub(
                    self.true_inputs@[m2 as int].revealed_commitment.blinding,
                    pseudo@[m2 as int].blinding,
                )));
                assert(ring_snap[pi as int].0 == aff(g_mul(self.true_inputs@[m2 as int].secret_key)));
                assert(ring_snap[pi as int].1 == aff(g_mul(s_sub(
                    self.true_inputs@[m2 as int].revealed_commitment.blinding,
                    pseudo@[m2 as int].blinding,
                ))));
            }
            let mlsag = match ringct_mlsag_sign(msg, &self.true_inputs[m2], &pseudo[m2], pi, ring, rng) {
                Ok(s) => s,
                Err(e) => {
                    proof {
                        assert(false);
                    }
                    return Err(e);
                },
            };
            c0s.push(mlsag.c0);
            rs.push(mlsag.r);
            images.push(mlsag.key_image);
            rings.push(mlsag.ring);
            m2 = m2 + 1;
        }

        let sig = RingCTSignature { c0: c0s, r: rs, key_images: images };
        proof {
            assert(spec_verify(msg@, sig, rings@));
            assert(true_keys_at_row(rings@, self.true_inputs@, pi as int));
            assert(balance_holds(gens, pseudo@, outs@));
            assert(matches_transaction(pseudo@, outs@, self.true_inputs@, self.outputs@));
            assert(sign_witness(*self, rings@, pi as int, gens, pseudo@, outs@));
            assert(sign_produces(*self, msg@, sig, rings@));
        }
        Ok((sig, rings))
    }
}

/// Checks the aggregate signature against the message and the adjusted
/// rings.  Returns exactly whether the counts match, every key image is on
/// the curve, and every challenge chain closes.
pub fn verify(msg: &[u8], sig: &RingCTSignature, rings: &Vec<Vec<(G1Affine, G1Affine)>>) -> (b: bool)
    ensures
        b == spec_verify(msg@, *sig, rings@),
{
    let n_rings = rings.len();
    if sig.key_images.len() != n_rings {
        return false;
    }
    if sig.c0.len() != n_rings {
        return false;
    }
    if sig.r.len() != n_rings {
        return false;
    }

    let mut m: usize = 0;
    while m < n_rings
        invariant
            m <= n_rings,
            n_rings == rings@.len(),
            sig.key_images@.len() == n_rings,
            sig.c0@.len() == n_rings,
            sig.r@.len() == n_rings,
            forall|i: int| #![trigger rings@[i]]
                0 <= i < m ==> sig.r@[i]@.len() == rings@[i]@.len(),
            forall|i: int| #![trigger sig.key_images@[i]]
                0 <= i < m ==> on_curve(sig.key_images@[i]) && in_subgroup(sig.key_images@[i]),
        decreases n_rings - m,
    {
        if sig.r[m].len() != rings[m].len() {
            return false;
        }
        if !is_on_curve(&sig.key_images[m]) {
            return false;
        }
        if !is_torsion_free(&sig.key_images[m]) {
            return false;
        }
        m = m + 1;
    }

    let mut m2: usize = 0;
    while m2 < n_rings
        invariant
            m2 <= n_rings,
            n_rings == rings@.len(),
            sig.key_images@.len() == n_rings,
            sig.c0@.len() == n_rings,
            sig.r@.len() == n_rings,
            forall|i: int| #![trigger rings@[i]]
                0 <= i < n_rings ==> sig.r@[i]@.len() == rings@[i]@.len(),
            forall|i: int| #![trigger sig.key_images@[i]]
                0 <= i < n_rings ==> on_curve(sig.key_images@[i]) && in_subgroup(sig.key_images@[i]),
            forall|i: int| #![trigger rings@[i]]
                0 <= i < m2 ==> mlsag_closes(msg@, rings@[i]@, sig.r@[i]@, sig.key_images@[i], sig.c0@[i]),
        decreases n_rings - m2,
    {
        let ring_len = rings[m2].len();
        let mut cprime = sig.c0[m2];
        let mut n: usize = 0;
        while n < ring_len
            invariant
                n <= ring_len,
                m2 < n_rings,
                n_rings == rings@.len(),
                sig.key_images@.len() == n_rings,
                sig.c0@.len() == n_rings,
                sig.r@.len() == n_rings,
                ring_len == rings@[m2 as int]@.len(),
                sig.r@[m2 as int]@.len() == ring_len,
                cprime == chain_at(
                    msg@,
                    rings@[m2 as int]@,
                    sig.r@[m2 as int]@,
                    sig.key_images@[m2 as int],
                    sig.c0@[m2 as int],
                    n as nat,
                ),
            decreases ring_len - n,
        {
            let entry = rings[m2][n];
            let rn = sig.r[m2][n];
            let pn = to_projective(&entry.0);
            let hn = hash_to_curve_sig(&pn);
            let t1 = mul_generator(&rn.0);
            let u1 = mul_affine(&entry.0, &cprime);
            let l1 = add_points(&t1, &u1);
            let t2 = mul_generator(&rn.1);
            let u2 = mul_affine(&entry.1, &cprime);
            let l2 = add_points(&t2, &u2);
            let t3 = crate::curve::point_mul(&hn, &rn.0);
            let u3 = mul_affine(&sig.key_images[m2], &cprime);
            let r1 = add_points(&t3, &u3);
            cprime = c_hash(msg, &l1, &l2, &r1);
            n = n + 1;
        }
        if !scalar_eq(&cprime, &sig.c0[m2]) {
            proof {
                assert(!mlsag_closes(
                    msg@,
                    rings@[m2 as int]@,
                    sig.r@[m2 as int]@,
                    sig.key_images@[m2 as int],
                    sig.c0@[m2 as int],
                ));
            }
            return false;
        }
        m2 = m2 + 1;
    }
    true
}

/// Completeness: whatever a successful signing emitted, the verifier
/// accepts — `verify` returns true on it, by its own contract.
pub proof fn lemma_completeness(
    material: RingCT,
    msg: Seq<u8>,
    sig: RingCTSignature,
    rings: Seq<Vec<(G1Affine, G1Affine)>>,
)
    requires
        sign_produces(material, msg, sig, rings),
    ensures
        spec_verify(msg, sig, rings),
{
}

/// Two signings over the same spending keys yield the same key images,
/// whatever randomness each drew: the images are functions of the keys
/// alone.
pub proof fn lemma_key_images_deterministic(
    images_a: Seq<G1Affine>,
    images_b: Seq<G1Affine>,
    secret_keys: Seq<Scalar>,
)
    requires
        images_a.len() == secret_keys.len(),
        images_b.len() == secret_keys.len(),
        forall|m: int| 0 <= m < secret_keys.len() ==> #[trigger] images_a[m] == aff(spec_key_image(
            secret_keys[m],
        )),
        forall|m: int| 0 <= m < secret_keys.len() ==> #[trigger] images_b[m] == aff(spec_key_image(
            secret_keys[m],
        )),
    ensures
        images_a == images_b,
{
    assert(images_a =~= images_b);
}

} // verus!
