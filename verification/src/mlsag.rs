//! The per-input ring signature.
//!
//! A ring is a sequence of pairs of affine points.  The signer knows the
//! discrete logarithms of both components at one secret row `pi` and rolls
//! a Fiat-Shamir challenge chain all the way around the ring; the chain
//! closes because the response at row `pi` is chosen to cancel the
//! challenge there.  The group identities this rests on are checked at
//! run time, exactly where the construction guarantees them; a failure
//! reports defective curve arithmetic instead of an invalid signature.

use vstd::prelude::*;

use blstrs::{G1Affine, G1Projective, Scalar};
use rand_chacha::ChaCha20Rng;

use crate::commit::RevealedCommitment;
use crate::curve::{
    a_mul, add_points, aff, g_mul, in_subgroup, mul_affine, mul_generator, on_curve, p_add, p_mul,
    point_eq, point_mul, proj, random_scalar, s_add, s_mul, s_sub, scalar_mul, scalar_sub,
    scalar_zero, to_affine, to_projective,
};
use crate::hash::{c_hash, hash_to_curve_sig, hp_p, spec_c_hash};
use crate::Error;

verus! {

/// An input the signer can spend: the spending key and the opening of the
/// commitment that is being consumed.
pub struct TrueInput {
    pub secret_key: Scalar,
    pub revealed_commitment: RevealedCommitment,
}

/// The key image of a spending key: the key times the hash-to-curve of its
/// public key.  It is a function of the key alone, which is what links two
/// spends of the same key.
pub open spec fn spec_key_image(sk: Scalar) -> G1Projective {
    p_mul(hp_p(g_mul(sk)), sk)
}

impl TrueInput {
    pub fn public_key(&self) -> (r: G1Projective)
        ensures
            r == g_mul(self.secret_key),
    {
        mul_generator(&self.secret_key)
    }

    /// Computes the key image for this input's keypair, `I = x * Hp(P)`.
    pub fn key_image(&self) -> (r: G1Projective)
        ensures
            r == spec_key_image(self.secret_key),
    {
        let pk = mul_generator(&self.secret_key);
        let h = hash_to_curve_sig(&pk);
        point_mul(&h, &self.secret_key)
    }
}

/// A ring entry sourced from the chain; the signer knows nothing of its
/// openings.
#[derive(Debug, Clone, Copy)]
pub struct DecoyInput {
    pub public_key: G1Affine,
    pub commitment: G1Affine,
}

/// One per-input ring signature: the initial challenge, one response pair
/// per row, the key image, and the ring the chain ran over.
#[derive(Debug)]
pub struct MlsagSignature {
    pub c0: Scalar,
    pub r: Vec<(Scalar, Scalar)>,
    pub key_image: G1Affine,
    pub ring: Vec<(G1Affine, G1Affine)>,
}

/// One step of the challenge chain: the next challenge, from row `n`'s
/// entry, response pair and the current challenge.
pub open spec fn chain_step(
    msg: Seq<u8>,
    entry: (G1Affine, G1Affine),
    rn: (Scalar, Scalar),
    ki: G1Affine,
    cn: Scalar,
) -> Scalar {
    spec_c_hash(
        msg,
        p_add(g_mul(rn.0), a_mul(entry.0, cn)),
        p_add(g_mul(rn.1), a_mul(entry.1, cn)),
        p_add(p_mul(hp_p(proj(entry.0)), rn.0), a_mul(ki, cn)),
    )
}

/// The challenge after `n` steps of the chain, starting from `c0` at row 0.
pub open spec fn chain_at(
    msg: Seq<u8>,
    ring: Seq<(G1Affine, G1Affine)>,
    rs: Seq<(Scalar, Scalar)>,
    ki: G1Affine,
    c0: Scalar,
    n: nat,
) -> Scalar
    decreases n,
{
    if n == 0 {
        c0
    } else {
        chain_step(
            msg,
            ring[n as int - 1],
            rs[n as int - 1],
            ki,
            chain_at(msg, ring, rs, ki, c0, (n - 1) as nat),
        )
    }
}

/// A ring signature is valid when replaying the whole chain from `c0`
/// comes back to `c0`.
pub open spec fn mlsag_closes(
    msg: Seq<u8>,
    ring: Seq<(G1Affine, G1Affine)>,
    rs: Seq<(Scalar, Scalar)>,
    ki: G1Affine,
    c0: Scalar,
) -> bool {
    chain_at(msg, ring, rs, ki, c0, ring.len()) == c0
}

/// The row after `n`, wrapping at `len`.
pub open spec fn nxt_spec(n: int, len: int) -> int {
    if n + 1 == len {
        0
    } else {
        n + 1
    }
}

/// The row reached from `pi` after `k` forward steps, wrapping at `len`.
pub open spec fn wrap_idx(pi: int, k: int, len: int) -> int {
    if pi + k < len {
        pi + k
    } else {
        pi + k - len
    }
}

/// Every stored challenge follows from the previous row by one chain step.
pub open spec fn linked(
    msg: Seq<u8>,
    ring: Seq<(G1Affine, G1Affine)>,
    rs: Seq<(Scalar, Scalar)>,
    ki: G1Affine,
    c: Seq<Scalar>,
) -> bool {
    forall|n: int| #![trigger c[n]]
        0 <= n < c.len() ==> c[nxt_spec(n, c.len() as int)] == chain_step(msg, ring[n], rs[n], ki, c[n])
}

/// A fully linked challenge vector closes: replaying the chain from its
/// first entry returns to that entry.
proof fn lemma_chain_from_linked(
    msg: Seq<u8>,
    ring: Seq<(G1Affine, G1Affine)>,
    rs: Seq<(Scalar, Scalar)>,
    ki: G1Affine,
    c: Seq<Scalar>,
    k: nat,
)
    requires
        ring.len() == c.len(),
        rs.len() == c.len(),
        c.len() >= 1,
        k <= c.len(),
        linked(msg, ring, rs, ki, c),
    ensures
        chain_at(msg, ring, rs, ki, c[0], k) == if k == c.len() {
            c[0]
        } else {
            c[k as int]
        },
    decreases k,
{
    if k > 0 {
        lemma_chain_from_linked(msg, ring, rs, ki, c, (k - 1) as nat);
        assert(c[nxt_spec(k as int - 1, c.len() as int)] == chain_step(
            msg,
            ring[k as int - 1],
            rs[k as int - 1],
            ki,
            c[k as int - 1],
        ));
    }
}

/// Signs one ring at secret row `pi`.
///
/// The signer's first secret is the spending key; the second is the
/// blinding difference between the consumed commitment and the pseudo
/// commitment, which must open ring row `pi`'s second component over the
/// group generator.  Both openings are checked; a mismatch reports
/// `ArithmeticIdentity` rather than emitting a signature that cannot
/// verify.
pub fn ringct_mlsag_sign(
    msg: &[u8],
    input: &TrueInput,
    revealed_pseudo_commitment: &RevealedCommitment,
    pi: usize,
    ring: Vec<(G1Affine, G1Affine)>,
    rng: &mut ChaCha20Rng,
) -> (res: Result<MlsagSignature, Error>)
    requires
        pi < ring@.len(),
    ensures
        (res matches Ok(sig) ==> {
            &&& sig.ring@ == ring@
            &&& sig.r@.len() == ring@.len()
            &&& sig.key_image == aff(spec_key_image(input.secret_key))
            &&& on_curve(sig.key_image)
            &&& in_subgroup(sig.key_image)
            &&& mlsag_closes(msg@, sig.ring@, sig.r@, sig.key_image, sig.c0)
        }),
        (res matches Err(e) ==> e == Error::ArithmeticIdentity),
        (ring@[pi as int].0 == aff(g_mul(input.secret_key)) && ring@[pi as int].1 == aff(g_mul(
            s_sub(input.revealed_commitment.blinding, revealed_pseudo_commitment.blinding),
        )) ==> res is Ok),
{
    let ring_len = ring.len();
    let x0 = input.secret_key;
    let x1 = scalar_sub(
        &input.revealed_commitment.blinding,
        &revealed_pseudo_commitment.blinding,
    );

    // Whether the caller handed a ring whose row pi this signer can open.
    let ghost opens = ring@[pi as int].0 == aff(g_mul(input.secret_key)) && ring@[pi as int].1
        == aff(g_mul(s_sub(input.revealed_commitment.blinding, revealed_pseudo_commitment.blinding)));

    // The openings of row pi that the whole construction promises.
    let pk = mul_generator(&x0);
    let pk_anchor = to_affine(&pk);
    let p0 = to_projective(&ring[pi].0);
    proof {
        if opens {
            assert(ring@[pi as int].0 == pk_anchor);
            assert(p0 == pk);
        }
    }
    if !point_eq(&pk, &p0) {
        return Err(Error::ArithmeticIdentity);
    }
    let q1 = mul_generator(&x1);
    let q1_anchor = to_affine(&q1);
    let p1 = to_projective(&ring[pi].1);
    proof {
        if opens {
            assert(ring@[pi as int].1 == q1_anchor);
            assert(p1 == q1);
        }
    }
    if !point_eq(&q1, &p1) {
        return Err(Error::ArithmeticIdentity);
    }

    let h = hash_to_curve_sig(&pk);
    let key_image_p = point_mul(&h, &x0);
    let key_image = to_affine(&key_image_p);

    let alpha0 = random_scalar(rng);
    let alpha1 = random_scalar(rng);

    let mut r: Vec<(Scalar, Scalar)> = Vec::new();
    let mut j: usize = 0;
    while j < ring_len
        invariant
            r@.len() == j,
            j <= ring_len,
        decreases ring_len - j,
    {
        let r0 = random_scalar(rng);
        let r1 = random_scalar(rng);
        r.push((r0, r1));
        j = j + 1;
    }

    let zero = scalar_zero();
    let mut c: Vec<Scalar> = Vec::new();
    let mut j2: usize = 0;
    while j2 < ring_len
        invariant
            c@.len() == j2,
            j2 <= ring_len,
        decreases ring_len - j2,
    {
        c.push(zero);
        j2 = j2 + 1;
    }

    // Initialize the chain one row past pi from the fresh nonces.
    let l1 = mul_generator(&alpha0);
    let l2 = mul_generator(&alpha1);
    let r1p = point_mul(&h, &alpha0);
    let c_init = c_hash(msg, &l1, &l2, &r1p);
    let start = if pi + 1 == ring_len {
        0
    } else {
        pi + 1
    };
    c.set(start, c_init);
    proof {
        assert(start as int == wrap_idx(pi as int, 1, ring_len as int));
    }

    // Walk the remaining rows, each challenge hashed from the previous.
    let mut n = start;
    let mut offset: usize = 1;
    while offset < ring_len
        invariant
            1 <= offset <= ring_len,
            ring_len == ring@.len(),
            pi < ring_len,
            n as int == wrap_idx(pi as int, offset as int, ring_len as int),
            n < ring_len,
            c@.len() == ring_len,
            r@.len() == ring_len,
            c@[wrap_idx(pi as int, 1, ring_len as int)] == c_init,
            forall|k: int| #![trigger c@[wrap_idx(pi as int, k, ring_len as int)]]
                2 <= k <= offset ==> c@[wrap_idx(pi as int, k, ring_len as int)] == chain_step(
                    msg@,
                    ring@[wrap_idx(pi as int, k - 1, ring_len as int)],
                    r@[wrap_idx(pi as int, k - 1, ring_len as int)],
                    key_image,
                    c@[wrap_idx(pi as int, k - 1, ring_len as int)],
                ),
        decreases ring_len - offset,
    {
        let next = if n + 1 == ring_len {
            0
        } else {
            n + 1
        };
        proof {
            assert(next as int == wrap_idx(pi as int, offset as int + 1, ring_len as int));
        }
        let e0 = ring[n].0;
        let e1 = ring[n].1;
        let rn = r[n];
        let cn = c[n];
        let pn = to_projective(&e0);
        let hn = hash_to_curve_sig(&pn);
        let t1 = mul_generator(&rn.0);
        let u1 = mul_affine(&e0, &cn);
        let l1n = add_points(&t1, &u1);
        let t2 = mul_generator(&rn.1);
        let u2 = mul_affine(&e1, &cn);
        let l2n = add_points(&t2, &u2);
        let t3 = point_mul(&hn, &rn.0);
        let u3 = mul_affine(&key_image, &cn);
        let r1n = add_points(&t3, &u3);
        let cv = c_hash(msg, &l1n, &l2n, &r1n);
        let ghost c_old = c@;
        c.set(next, cv);
        proof {
            assert(cv == chain_step(msg@, ring@[n as int], r@[n as int], key_image, c_old[n as int]));
            assert forall|a: int, b: int|
                0 <= a <= ring_len && 0 <= b <= ring_len && a < b && wrap_idx(
                    pi as int,
                    a,
                    ring_len as int,
                ) == wrap_idx(pi as int, b, ring_len as int) implies a == 0 && b == ring_len by {}
            assert(c@[wrap_idx(pi as int, 1, ring_len as int)] == c_init);
            assert forall|k: int| #![trigger c@[wrap_idx(pi as int, k, ring_len as int)]]
                2 <= k <= offset as int + 1 implies c@[wrap_idx(
                pi as int,
                k,
                ring_len as int,
            )] == chain_step(
                msg@,
                ring@[wrap_idx(pi as int, k - 1, ring_len as int)],
                r@[wrap_idx(pi as int, k - 1, ring_len as int)],
                key_image,
                c@[wrap_idx(pi as int, k - 1, ring_len as int)],
            ) by {
                if k == offset as int + 1 {
                    assert(c@[wrap_idx(pi as int, k, ring_len as int)] == cv);
                    assert(c@[wrap_idx(pi as int, k - 1, ring_len as int)] == c_old[n as int]);
                } else {
                    assert(c_old[wrap_idx(pi as int, k, ring_len as int)] == chain_step(
                        msg@,
                        ring@[wrap_idx(pi as int, k - 1, ring_len as int)],
                        r@[wrap_idx(pi as int, k - 1, ring_len as int)],
                        key_image,
                        c_old[wrap_idx(pi as int, k - 1, ring_len as int)],
                    ));
                    assert(wrap_idx(pi as int, k, ring_len as int) != next as int);
                    assert(wrap_idx(pi as int, k - 1, ring_len as int) != next as int);
                }
            }
        }
        n = next;
        offset = offset + 1;
    }

    // Close the gap at row pi with the response that cancels its challenge.
    let c_pi = c[pi];
    let t0 = scalar_mul(&c_pi, &x0);
    let r0 = scalar_sub(&alpha0, &t0);
    let t1 = scalar_mul(&c_pi, &x1);
    let r1s = scalar_sub(&alpha1, &t1);
    let ghost r_old = r@;
    r.set(pi, (r0, r1s));

    // The three identities that make the chain close at pi; they hold by
    // the group laws whenever row pi opens, so a failure there means
    // broken arithmetic.
    let g_r0 = mul_generator(&r0);
    let pc0 = mul_affine(&ring[pi].0, &c_pi);
    let lhs0 = add_points(&g_r0, &pc0);
    proof {
        if opens {
            assert(proj(ring@[pi as int].0) == pk);
            assert(pc0 == p_mul(g_mul(x0), c_pi));
            assert(pc0 == g_mul(t0));
            assert(lhs0 == l1);
        }
    }
    if !point_eq(&lhs0, &l1) {
        return Err(Error::ArithmeticIdentity);
    }
    let g_r1 = mul_generator(&r1s);
    let pc1 = mul_affine(&ring[pi].1, &c_pi);
    let lhs1 = add_points(&g_r1, &pc1);
    proof {
        if opens {
            assert(proj(ring@[pi as int].1) == q1);
            assert(pc1 == p_mul(g_mul(x1), c_pi));
            assert(pc1 == g_mul(t1));
            assert(lhs1 == l2);
        }
    }
    if !point_eq(&lhs1, &l2) {
        return Err(Error::ArithmeticIdentity);
    }
    let h_r0 = point_mul(&h, &r0);
    let kic = mul_affine(&key_image, &c_pi);
    let lhs2 = add_points(&h_r0, &kic);
    proof {
        assert(proj(key_image) == key_image_p);
        assert(kic == p_mul(p_mul(h, x0), c_pi));
        assert(kic == p_mul(h, s_mul(c_pi, x0)));
        assert(p_add(h_r0, p_mul(h, t0)) == p_mul(h, s_add(r0, t0)));
        assert(s_add(r0, t0) == alpha0);
        assert(lhs2 == r1p);
    }
    if !point_eq(&lhs2, &r1p) {
        return Err(Error::ArithmeticIdentity);
    }

    proof {
        let len = ring_len as int;
        assert forall|m: int| 0 <= m < len implies c@[nxt_spec(m, len)] == chain_step(
            msg@,
            ring@[m],
            r@[m],
            key_image,
            c@[m],
        ) by {
            if m == pi as int {
                assert(nxt_spec(m, len) == wrap_idx(pi as int, 1, len));
                assert(c@[wrap_idx(pi as int, 1, len)] == c_init);
                assert(hp_p(proj(ring@[pi as int].0)) == hp_p(pk));
                assert(chain_step(msg@, ring@[m], r@[m], key_image, c@[m]) == c_init);
            } else {
                let k = if m > pi as int {
                    m - pi
                } else {
                    m + len - pi
                };
                assert(wrap_idx(pi as int, k, len) == m);
                assert(wrap_idx(pi as int, k + 1, len) == nxt_spec(m, len));
                assert(c@[wrap_idx(pi as int, k + 1, len)] == chain_step(
                    msg@,
                    ring@[wrap_idx(pi as int, k, len)],
                    r_old[wrap_idx(pi as int, k, len)],
                    key_image,
                    c@[wrap_idx(pi as int, k, len)],
                ));
                assert(r@[m] == r_old[m]);
            }
        }
        assert(linked(msg@, ring@, r@, key_image, c@));
        lemma_chain_from_linked(msg@, ring@, r@, key_image, c@, ring@.len());
    }

    let c0 = c[0];
    Ok(MlsagSignature { c0, r, key_image, ring })
}

} // verus!
