//! The boundary to the curve library.
//!
//! Everything the scheme needs from the BLS12-381 arithmetic crates is
//! declared here: the scalar-field and group types, one uninterpreted spec
//! name per outside operation, and one trusted wrapper per call the logic
//! makes.  A `G1Projective` value is modeled as the group element it
//! represents, so equality in contracts means equality in the group; every
//! fact stated below respects that reading.

use vstd::prelude::*;

use ff::Field;
use group::{Curve, Group};
use blstrs::{G1Affine, G1Projective, Scalar};
use bls_bulletproofs::PedersenGens;
use rand_chacha::ChaCha20Rng;
use rand_core::RngCore;

verus! {

#[verifier::external_type_specification]
#[verifier::external_body]
pub struct ExScalar(Scalar);

#[verifier::external_type_specification]
#[verifier::external_body]
pub struct ExG1Affine(G1Affine);

#[verifier::external_type_specification]
#[verifier::external_body]
pub struct ExG1Projective(G1Projective);

#[verifier::external_type_specification]
#[verifier::external_body]
pub struct ExChaCha20Rng(ChaCha20Rng);

#[verifier::external_type_specification]
#[verifier::external_body]
pub struct ExPedersenGens(PedersenGens);

// Names for what the outside operations return.  Each is a function of its
// arguments alone; the wrappers below tie them to the calls.

pub uninterp spec fn s_from_u64(v: u64) -> Scalar;

pub uninterp spec fn s_add(a: Scalar, b: Scalar) -> Scalar;

pub uninterp spec fn s_sub(a: Scalar, b: Scalar) -> Scalar;

pub uninterp spec fn s_mul(a: Scalar, b: Scalar) -> Scalar;

pub uninterp spec fn p_add(a: G1Projective, b: G1Projective) -> G1Projective;

pub uninterp spec fn p_sub(a: G1Projective, b: G1Projective) -> G1Projective;

pub uninterp spec fn p_mul(p: G1Projective, s: Scalar) -> G1Projective;

pub uninterp spec fn g_mul(s: Scalar) -> G1Projective;

pub uninterp spec fn aff(p: G1Projective) -> G1Affine;

pub uninterp spec fn proj(a: G1Affine) -> G1Projective;

/// Multiplying an affine point is multiplying the group element it
/// represents.
pub open spec fn a_mul(a: G1Affine, s: Scalar) -> G1Projective {
    p_mul(proj(a), s)
}

pub uninterp spec fn compress_p(p: G1Projective) -> Seq<u8>;

pub uninterp spec fn on_curve(a: G1Affine) -> bool;

pub uninterp spec fn in_subgroup(a: G1Affine) -> bool;

/// The element lies on the curve and in the prime-order subgroup: what
/// every value built from the group's own operations satisfies, and what
/// a point smuggled in through an unchecked constructor may not.
pub uninterp spec fn valid_point(p: G1Projective) -> bool;

pub uninterp spec fn h2c(msg: Seq<u8>, sig_domain: bool) -> G1Projective;

pub uninterp spec fn gens_value_base(gens: PedersenGens) -> G1Projective;

pub uninterp spec fn gens_blinding_base(gens: PedersenGens) -> G1Projective;

/// Both bases are honest curve points, as the default generator set
/// supplies them; a pair assembled from raw coordinates may not be.
pub uninterp spec fn valid_gens(gens: PedersenGens) -> bool;

/// A Pedersen commitment is the value on one base plus the blinding on
/// the other.
pub open spec fn spec_commit(gens: PedersenGens, value: Scalar, blinding: Scalar) -> G1Projective {
    p_add(p_mul(gens_value_base(gens), value), p_mul(gens_blinding_base(gens), blinding))
}

/// Relies on `Scalar::from::<u64>`: the canonical field element of a machine
/// integer.
#[verifier::external_body]
pub(crate) fn scalar_from_u64(v: u64) -> (r: Scalar)
    ensures
        r == s_from_u64(v),
{
    Scalar::from(v)
}

/// Relies on `Scalar::zero` agreeing with `Scalar::from(0)`: both are the
/// additive identity of the field.
#[verifier::external_body]
pub(crate) fn scalar_zero() -> (r: Scalar)
    ensures
        r == s_from_u64(0),
{
    Scalar::zero()
}

/// Relies on `Add for Scalar`: field addition.
#[verifier::external_body]
pub(crate) fn scalar_add(a: &Scalar, b: &Scalar) -> (r: Scalar)
    ensures
        r == s_add(*a, *b),
{
    a + b
}

/// Relies on `Sub for Scalar`: field subtraction.  Adding the subtrahend
/// back returns the minuend on either side, since field addition is
/// commutative and cancellative; and the same cancellation holds after
/// multiplying both scalars onto the group generator, since scalar
/// multiplication is additive in the scalar.
#[verifier::external_body]
pub(crate) fn scalar_sub(a: &Scalar, b: &Scalar) -> (r: Scalar)
    ensures
        r == s_sub(*a, *b),
        s_add(*b, r) == *a,
        s_add(r, *b) == *a,
        p_add(g_mul(r), g_mul(*b)) == g_mul(*a),
{
    a - b
}

/// Relies on `Mul for Scalar`: field multiplication.  Multiplying the
/// generator by the product equals multiplying it by one factor and then
/// the other, since scalar multiplication composes multiplicatively.
#[verifier::external_body]
pub(crate) fn scalar_mul(a: &Scalar, b: &Scalar) -> (r: Scalar)
    ensures
        r == s_mul(*a, *b),
        g_mul(r) == p_mul(g_mul(*b), *a),
{
    a * b
}

/// Relies on `PartialEq for Scalar`: the representation is canonical, so
/// the comparison decides equality of field elements.
#[verifier::external_body]
pub(crate) fn scalar_eq(a: &Scalar, b: &Scalar) -> (r: bool)
    ensures
        r == (a == b),
{
    a == b
}

/// Relies on `Field::random`: a fresh scalar from the caller's stream.
/// Nothing can be promised of the value.
#[verifier::external_body]
pub(crate) fn random_scalar(rng: &mut ChaCha20Rng) -> Scalar {
    Scalar::random(rng)
}

/// Relies on `RngCore::next_u32` of the ChaCha stream.  Nothing can be
/// promised of the value.
#[verifier::external_body]
pub(crate) fn next_u32(rng: &mut ChaCha20Rng) -> u32 {
    rng.next_u32()
}

/// Relies on `Add for G1Projective`: the group operation.
#[verifier::external_body]
pub(crate) fn add_points(a: &G1Projective, b: &G1Projective) -> (r: G1Projective)
    ensures
        r == p_add(*a, *b),
{
    a + b
}

/// Relies on `Sub for G1Projective`: addition of the inverse.
#[verifier::external_body]
pub(crate) fn sub_points(a: &G1Projective, b: &G1Projective) -> (r: G1Projective)
    ensures
        r == p_sub(*a, *b),
{
    a - b
}

/// Relies on `Mul<Scalar> for G1Projective`: scalar multiplication.  On a
/// valid point it stays valid, composes multiplicatively in the scalar,
/// and is additive in the scalar over the fixed base — the group laws of
/// `blst_p1_mult`; nothing is claimed of a malformed operand.
#[verifier::external_body]
pub(crate) fn point_mul(p: &G1Projective, s: &Scalar) -> (r: G1Projective)
    ensures
        r == p_mul(*p, *s),
        valid_point(*p) ==> valid_point(r),
        valid_point(*p) ==> forall|x: Scalar| p_mul(r, x) == p_mul(*p, s_mul(x, *s)),
        valid_point(*p) ==> forall|x: Scalar| p_add(r, p_mul(*p, x)) == p_mul(*p, s_add(*s, x)),
{
    p * s
}

/// Relies on `Mul<Scalar> for G1Affine`: scalar multiplication of an
/// affine point, yielding a projective result.
#[verifier::external_body]
pub(crate) fn mul_affine(a: &G1Affine, s: &Scalar) -> (r: G1Projective)
    ensures
        r == a_mul(*a, *s),
{
    a * s
}

/// Relies on `G1Projective::generator` and `Mul<Scalar>`: the fixed group
/// generator times the given scalar, a point of the prime-order subgroup.
#[verifier::external_body]
pub(crate) fn mul_generator(s: &Scalar) -> (r: G1Projective)
    ensures
        r == g_mul(*s),
        valid_point(r),
{
    G1Projective::generator() * s
}

/// Relies on `Curve::to_affine`: the affine form of the same group
/// element, so converting back yields the element itself; when the
/// element is valid, the affine form passes blstrs' curve and subgroup
/// checks.
#[verifier::external_body]
pub(crate) fn to_affine(p: &G1Projective) -> (r: G1Affine)
    ensures
        r == aff(*p),
        proj(r) == *p,
        valid_point(*p) ==> on_curve(r) && in_subgroup(r),
{
    p.to_affine()
}

/// Relies on `From<G1Affine> for G1Projective`: the same group element in
/// projective form.
#[verifier::external_body]
pub(crate) fn to_projective(a: &G1Affine) -> (r: G1Projective)
    ensures
        r == proj(*a),
{
    G1Projective::from(a)
}

/// Relies on `PartialEq for G1Projective`: the comparison decides equality
/// of the group elements, independent of representation.
#[verifier::external_body]
pub(crate) fn point_eq(a: &G1Projective, b: &G1Projective) -> (r: bool)
    ensures
        r == (a == b),
{
    a == b
}

/// Relies on `G1Affine::is_on_curve`: true exactly for points satisfying
/// the curve equation (the identity included).
#[verifier::external_body]
pub(crate) fn is_on_curve(a: &G1Affine) -> (r: bool)
    ensures
        r == on_curve(*a),
{
    bool::from(a.is_on_curve())
}

/// Relies on `G1Affine::is_torsion_free`: true exactly for points of the
/// prime-order subgroup.
#[verifier::external_body]
pub(crate) fn is_torsion_free(a: &G1Affine) -> (r: bool)
    ensures
        r == in_subgroup(*a),
{
    bool::from(a.is_torsion_free())
}

/// Relies on `G1Projective::to_compressed`: the 48-byte compressed
/// encoding of the group element.
#[verifier::external_body]
pub(crate) fn compress(p: &G1Projective) -> (r: Vec<u8>)
    ensures
        r@ == compress_p(*p),
{
    p.to_compressed().to_vec()
}

/// Relies on `G1Projective::hash_to_curve` with the domain string
/// `blst-ringct-hash-to-curve`.  The result depends on the message and the
/// domain alone; the `false` tag stands for this generic domain.
#[verifier::external_body]
pub(crate) fn hash_to_curve_generic(msg: &Vec<u8>) -> (r: G1Projective)
    ensures
        r == h2c(msg@, false),
        valid_point(r),
{
    G1Projective::hash_to_curve(msg.as_slice(), b"blst-ringct-hash-to-curve", &[])
}

/// Relies on `G1Projective::hash_to_curve` with the distinct domain string
/// `blst-ringct-signature-hash-to-curve`, used inside the signature.  The
/// `true` tag stands for this signature domain.
#[verifier::external_body]
pub(crate) fn hash_to_curve_signature(msg: &Vec<u8>) -> (r: G1Projective)
    ensures
        r == h2c(msg@, true),
        valid_point(r),
{
    G1Projective::hash_to_curve(msg.as_slice(), b"blst-ringct-signature-hash-to-curve", &[])
}

/// Relies on `PedersenGens::default`: a fixed pair of independent
/// generators in which `B_blinding` is the group generator, so the
/// blinding base times any scalar is that scalar times the generator, and
/// a commitment to value zero under blinding zero is the identity, which
/// is also the generator times zero.
#[verifier::external_body]
pub(crate) fn default_gens() -> (r: PedersenGens)
    ensures
        valid_gens(r),
        forall|x: Scalar| p_mul(gens_blinding_base(r), x) == g_mul(x),
        spec_commit(r, s_from_u64(0), s_from_u64(0)) == g_mul(s_from_u64(0)),
{
    PedersenGens::default()
}

/// Relies on `PedersenGens::commit`: `value * B + blinding * B_blinding`.
/// Under honest generators, commitments add homomorphically, and two
/// commitments to the same value differ by the blinding difference on the
/// blinding base — the group laws applied to the two-base sum.
#[verifier::external_body]
pub(crate) fn pedersen_commit(gens: &PedersenGens, value: &Scalar, blinding: &Scalar) -> (r: G1Projective)
    ensures
        r == spec_commit(*gens, *value, *blinding),
        r == p_add(
            p_mul(gens_value_base(*gens), *value),
            p_mul(gens_blinding_base(*gens), *blinding),
        ),
        valid_gens(*gens) ==> forall|v2: Scalar, b2: Scalar|
            p_add(spec_commit(*gens, v2, b2), r) == spec_commit(
                *gens,
                s_add(v2, *value),
                s_add(b2, *blinding),
            ),
        valid_gens(*gens) ==> forall|b2: Scalar|
            p_sub(r, spec_commit(*gens, *value, b2)) == p_mul(
                gens_blinding_base(*gens),
                s_sub(*blinding, b2),
            ),
{
    gens.commit(*value, *blinding)
}

} // verus!
