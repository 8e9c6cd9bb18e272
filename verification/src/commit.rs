//! Pedersen commitments and their openings.

use vstd::prelude::*;

use blstrs::{G1Projective, Scalar};
use bls_bulletproofs::PedersenGens;
use rand_chacha::ChaCha20Rng;

use crate::curve::{
    gens_blinding_base, p_add, p_mul, p_sub, pedersen_commit, random_scalar, s_add, s_from_u64,
    s_sub, scalar_from_u64, spec_commit, valid_gens,
};

verus! {

/// The opening of a Pedersen commitment: the committed value and the
/// blinding factor.  Only the holder of an output knows it.
#[derive(Debug, Clone, Copy)]
pub struct RevealedCommitment {
    pub value: u64,
    pub blinding: Scalar,
}

impl RevealedCommitment {
    /// Construct a revealed commitment from a value, drawing the blinding
    /// from the caller's randomness stream.
    pub fn from_value(value: u64, rng: &mut ChaCha20Rng) -> (r: Self)
        ensures
            r.value == value,
    {
        RevealedCommitment { value, blinding: random_scalar(rng) }
    }

    /// The commitment this opening opens.  Under honest generators it adds
    /// homomorphically to any other commitment, and subtracting a
    /// commitment to the same value leaves the blinding difference on the
    /// blinding base.
    pub fn commit(&self, pc_gens: &PedersenGens) -> (r: G1Projective)
        ensures
            r == spec_commit(*pc_gens, s_from_u64(self.value), self.blinding),
            valid_gens(*pc_gens) ==> forall|v2: Scalar, b2: Scalar|
                p_add(spec_commit(*pc_gens, v2, b2), r) == spec_commit(
                    *pc_gens,
                    s_add(v2, s_from_u64(self.value)),
                    s_add(b2, self.blinding),
                ),
            valid_gens(*pc_gens) ==> forall|b2: Scalar|
                p_sub(r, spec_commit(*pc_gens, s_from_u64(self.value), b2)) == p_mul(
                    gens_blinding_base(*pc_gens),
                    s_sub(self.blinding, b2),
                ),
    {
        let v = scalar_from_u64(self.value);
        pedersen_commit(pc_gens, &v, &self.blinding)
    }

    pub fn value(&self) -> (r: u64)
        ensures
            r == self.value,
    {
        self.value
    }

    pub fn blinding(&self) -> (r: Scalar)
        ensures
            r == self.blinding,
    {
        self.blinding
    }
}

/// The sum of a sequence of scalars, folded from the left.
pub open spec fn spec_scalar_sum(s: Seq<Scalar>) -> Scalar
    decreases s.len(),
{
    if s.len() == 0 {
        s_from_u64(0)
    } else {
        s_add(spec_scalar_sum(s.drop_last()), s.last())
    }
}

/// The sum of a sequence of points, folded from the left over the group
/// identity (the generator times zero).
pub open spec fn p_sum(s: Seq<G1Projective>) -> G1Projective
    decreases s.len(),
{
    if s.len() == 0 {
        crate::curve::g_mul(s_from_u64(0))
    } else {
        p_add(p_sum(s.drop_last()), s.last())
    }
}

} // verus!
