//! Domain-separated hash-to-curve and hash-to-scalar.
//!
//! `hash_to_scalar` interprets a 256-bit digest as a little-endian integer
//! and accepts it when it is a canonical scalar; otherwise it hashes the
//! digest again.  The resample loop is bounded; if every attempt is
//! rejected the top two bits of the last digest are cleared, which forces
//! a value below the field order.  That branch is unreachable in practice.

use vstd::prelude::*;

use blstrs::{G1Projective, Scalar};
use tiny_keccak::{Hasher, Sha3};

use crate::curve::{
    compress, compress_p, h2c, hash_to_curve_generic, hash_to_curve_signature, s_from_u64,
    valid_point,
};

verus! {

/// How many digests are tried before the fallback masks the last one.
pub const SCALAR_SAMPLE_ATTEMPTS: usize = 64;

pub uninterp spec fn sha3_of(data: Seq<u8>) -> Seq<u8>;

pub uninterp spec fn s_from_le(bytes: Seq<u8>) -> Option<Scalar>;

/// Relies on `Sha3::v256` with `update` and `finalize`: the 32-byte
/// SHA3-256 digest, a function of the input bytes alone.
#[verifier::external_body]
fn sha3_256(data: &Vec<u8>) -> (r: Vec<u8>)
    ensures
        r@ == sha3_of(data@),
        r@.len() == 32,
{
    let mut sha3 = Sha3::v256();
    sha3.update(data.as_slice());
    let mut hash = [0u8; 32];
    sha3.finalize(&mut hash);
    hash.to_vec()
}

/// Relies on `Scalar::from_bytes_le`: `Some` exactly when the 32 bytes
/// read as a little-endian integer below the field order.  The order's
/// most significant byte is `0x73`, so a digest whose top byte is below
/// 64 is always accepted.
#[verifier::external_body]
fn scalar_from_le(h: &Vec<u8>) -> (r: Option<Scalar>)
    requires
        h@.len() == 32,
    ensures
        r == s_from_le(h@),
        h@[31] < 64 ==> r is Some,
{
    let arr: [u8; 32] = h.as_slice().try_into().unwrap();
    let ct = Scalar::from_bytes_le(&arr);
    if bool::from(ct.is_some()) {
        Some(ct.unwrap())
    } else {
        None
    }
}

/// The digest tried at attempt `n`: the digest of the material, rehashed
/// `n` times.
pub open spec fn nth_digest(material: Seq<u8>, n: nat) -> Seq<u8>
    decreases n,
{
    if n == 0 {
        sha3_of(material)
    } else {
        sha3_of(nth_digest(material, (n - 1) as nat))
    }
}

pub open spec fn accepts(material: Seq<u8>, n: nat) -> bool {
    s_from_le(nth_digest(material, n)) is Some
}

pub open spec fn first_acceptance(material: Seq<u8>, n: nat) -> bool {
    &&& accepts(material, n)
    &&& forall|k: nat| k < n ==> !accepts(material, k)
}

pub open spec fn opt_scalar(o: Option<Scalar>) -> Scalar {
    match o {
        Some(s) => s,
        None => s_from_u64(0),
    }
}

/// The digest with its top two bits cleared, read as a scalar.
pub open spec fn masked_scalar(digest: Seq<u8>) -> Scalar {
    opt_scalar(s_from_le(digest.update(31, (digest[31] & 0x3f) as u8)))
}

/// What `hash_to_scalar` returns: the scalar of the first accepted digest,
/// or, when every attempt within the bound is rejected, the masked form of
/// the digest after the last attempt.
pub open spec fn spec_hash_to_scalar(material: Seq<u8>) -> Scalar {
    if exists|n: nat| n < SCALAR_SAMPLE_ATTEMPTS && first_acceptance(material, n) {
        let n = choose|n: nat| n < SCALAR_SAMPLE_ATTEMPTS && first_acceptance(material, n);
        opt_scalar(s_from_le(nth_digest(material, n)))
    } else {
        masked_scalar(nth_digest(material, SCALAR_SAMPLE_ATTEMPTS as nat))
    }
}

proof fn lemma_first_acceptance_unique(material: Seq<u8>, a: nat, b: nat)
    requires
        first_acceptance(material, a),
        first_acceptance(material, b),
    ensures
        a == b,
{
    if a < b {
        assert(!accepts(material, a));
    } else if b < a {
        assert(!accepts(material, b));
    }
}

/// Hashes the material to a scalar by rejection resampling.
pub fn hash_to_scalar(material: &Vec<u8>) -> (s: Scalar)
    ensures
        s == spec_hash_to_scalar(material@),
{
    let mut hash = sha3_256(material);
    let mut i: usize = 0;
    while i < SCALAR_SAMPLE_ATTEMPTS
        invariant
            i <= SCALAR_SAMPLE_ATTEMPTS,
            hash@.len() == 32,
            hash@ == nth_digest(material@, i as nat),
            forall|k: nat| k < i ==> !accepts(material@, k),
        decreases SCALAR_SAMPLE_ATTEMPTS - i,
    {
        match scalar_from_le(&hash) {
            Some(s) => {
                proof {
                    assert(accepts(material@, i as nat));
                    assert(first_acceptance(material@, i as nat));
                    let n = choose|n: nat|
                        n < SCALAR_SAMPLE_ATTEMPTS && first_acceptance(material@, n);
                    lemma_first_acceptance_unique(material@, n, i as nat);
                }
                return s;
            },
            None => {},
        }
        hash = sha3_256(&hash);
        i = i + 1;
    }
    let top = hash[31] & 0x3f;
    proof {
        let h31: u8 = hash@[31];
        assert((h31 & 0x3f) < 64) by (bit_vector);
    }
    hash.set(31, top);
    let masked = scalar_from_le(&hash);
    proof {
        assert(forall|n: nat| n < SCALAR_SAMPLE_ATTEMPTS ==> !first_acceptance(material@, n));
    }
    match masked {
        Some(s) => s,
        None => {
            proof {
                assert(hash@[31] < 64);
                assert(false);
            }
            unreached()
        },
    }
}

pub open spec fn c_hash_bytes(msg: Seq<u8>, l1: G1Projective, l2: G1Projective, r1: G1Projective) -> Seq<u8> {
    msg + compress_p(l1) + compress_p(l2) + compress_p(r1)
}

/// The Fiat-Shamir challenge: the message and the three transcript points
/// in compressed form, hashed to a scalar.
pub open spec fn spec_c_hash(msg: Seq<u8>, l1: G1Projective, l2: G1Projective, r1: G1Projective) -> Scalar {
    spec_hash_to_scalar(c_hash_bytes(msg, l1, l2, r1))
}

fn push_bytes(buf: &mut Vec<u8>, b: &[u8])
    ensures
        final(buf)@ == old(buf)@ + b@,
{
    let mut i: usize = 0;
    while i < b.len()
        invariant
            i <= b@.len(),
            buf@ == old(buf)@ + b@.take(i as int),
        decreases b@.len() - i,
    {
        buf.push(b[i]);
        proof {
            assert(b@.take(i + 1 as int) =~= b@.take(i as int).push(b@[i as int]));
        }
        i = i + 1;
    }
    proof {
        assert(b@.take(b@.len() as int) =~= b@);
    }
}

/// The Fiat-Shamir challenge over the message and three transcript points.
pub fn c_hash(msg: &[u8], l1: &G1Projective, l2: &G1Projective, r1: &G1Projective) -> (r: Scalar)
    ensures
        r == spec_c_hash(msg@, *l1, *l2, *r1),
{
    let mut buf: Vec<u8> = Vec::new();
    push_bytes(&mut buf, msg);
    let c1 = compress(l1);
    push_bytes(&mut buf, c1.as_slice());
    let c2 = compress(l2);
    push_bytes(&mut buf, c2.as_slice());
    let c3 = compress(r1);
    push_bytes(&mut buf, c3.as_slice());
    hash_to_scalar(&buf)
}

/// Hashes a point to another point on the curve, under the generic domain.
pub fn hash_to_curve(p: G1Projective) -> (r: G1Projective)
    ensures
        r == h2c(compress_p(p), false),
        valid_point(r),
{
    let bytes = compress(&p);
    hash_to_curve_generic(&bytes)
}

/// Hashes a point to another point, under the signature domain used inside
/// the ring signature.
pub(crate) fn hash_to_curve_sig(p: &G1Projective) -> (r: G1Projective)
    ensures
        r == h2c(compress_p(*p), true),
        valid_point(r),
{
    let bytes = compress(p);
    hash_to_curve_signature(&bytes)
}

/// The hash-to-curve of an affine ring entry, as the challenge chain sees
/// it: its projective form compressed and hashed under the signature
/// domain.
pub open spec fn hp_p(p: G1Projective) -> G1Projective {
    h2c(compress_p(p), true)
}

} // verus!
