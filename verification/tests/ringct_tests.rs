use bls_bulletproofs::PedersenGens;
use blstrs::{G1Projective, Scalar};
use ff::Field;
use group::{Curve, Group};
use rand_chacha::ChaCha20Rng;
use rand_core::SeedableRng;

use ringct::{verify, DecoyInput, Error, Output, RevealedCommitment, RingCT, TrueInput};

fn seeded(seed: u8) -> ChaCha20Rng {
    ChaCha20Rng::from_seed([seed; 32])
}

fn random_decoy(rng: &mut ChaCha20Rng) -> DecoyInput {
    DecoyInput {
        public_key: G1Projective::random(&mut *rng).to_affine(),
        commitment: G1Projective::random(&mut *rng).to_affine(),
    }
}

/// One true input of the given value, `decoys` decoy rows, one output of
/// the same total, everything drawn from the given stream.
fn simple_material(value: u64, n_decoys: usize, rng: &mut ChaCha20Rng) -> RingCT {
    RingCT {
        true_inputs: vec![TrueInput {
            secret_key: Scalar::random(&mut *rng),
            revealed_commitment: RevealedCommitment {
                value,
                blinding: Scalar::from(5u64),
            },
        }],
        decoy_inputs: (0..n_decoys).map(|_| vec![random_decoy(rng)]).collect(),
        outputs: vec![Output {
            public_key: G1Projective::random(&mut *rng).to_affine(),
            amount: Scalar::from(value),
        }],
    }
}

#[test]
fn it_works() {
    let result = 2 + 2;
    assert_eq!(result, 4);
}

#[test]
fn test_ringct_sign() {
    let mut rng = seeded(7);

    let ring_ct = RingCT {
        true_inputs: vec![TrueInput {
            secret_key: Scalar::random(&mut rng),
            revealed_commitment: RevealedCommitment {
                value: 3,
                blinding: Scalar::from(5u64),
            },
        }],
        decoy_inputs: vec![vec![DecoyInput {
            public_key: G1Projective::random(&mut rng).to_affine(),
            commitment: G1Projective::random(&mut rng).to_affine(),
        }]],
        outputs: vec![Output {
            public_key: G1Projective::random(&mut rng).to_affine(),
            amount: Scalar::from(3u64),
        }],
    };

    let msg = b"hello";

    let (sig, rings) = ring_ct.sign(msg, &mut rng).unwrap();

    assert!(verify(msg, &sig, &rings));
}

#[test]
fn one_decoy_one_output_roundtrip() {
    let mut rng = seeded(1);
    let material = simple_material(3, 1, &mut rng);
    let (sig, rings) = material.sign(b"hello", &mut rng).unwrap();
    assert!(verify(b"hello", &sig, &rings));
}

#[test]
fn tampered_c0_rejected() {
    let mut rng = seeded(1);
    let material = simple_material(3, 1, &mut rng);
    let (mut sig, rings) = material.sign(b"hello", &mut rng).unwrap();
    sig.c0[0] = sig.c0[0] + Scalar::from(1u64);
    assert!(!verify(b"hello", &sig, &rings));
}

#[test]
fn tampered_response_rejected() {
    let mut rng = seeded(2);
    let material = simple_material(3, 1, &mut rng);
    let (mut sig, rings) = material.sign(b"hello", &mut rng).unwrap();
    sig.r[0][1].0 = sig.r[0][1].0 + Scalar::from(1u64);
    assert!(!verify(b"hello", &sig, &rings));
}

#[test]
fn tampered_key_image_rejected() {
    let mut rng = seeded(3);
    let material = simple_material(3, 1, &mut rng);
    let (mut sig, rings) = material.sign(b"hello", &mut rng).unwrap();
    sig.key_images[0] = G1Projective::random(&mut rng).to_affine();
    assert!(!verify(b"hello", &sig, &rings));
}

#[test]
fn tampered_ring_point_rejected() {
    let mut rng = seeded(4);
    let material = simple_material(3, 1, &mut rng);
    let (sig, mut rings) = material.sign(b"hello", &mut rng).unwrap();
    rings[0][0].0 = G1Projective::random(&mut rng).to_affine();
    assert!(!verify(b"hello", &sig, &rings));
}

#[test]
fn tampered_message_rejected() {
    let mut rng = seeded(5);
    let material = simple_material(3, 1, &mut rng);
    let (sig, rings) = material.sign(b"hello", &mut rng).unwrap();
    assert!(!verify(b"hellp", &sig, &rings));
}

#[test]
fn two_inputs_two_outputs_and_swapped_key_images() {
    let mut rng = seeded(11);
    let material = RingCT {
        true_inputs: vec![
            TrueInput {
                secret_key: Scalar::random(&mut rng),
                revealed_commitment: RevealedCommitment {
                    value: 5,
                    blinding: Scalar::random(&mut rng),
                },
            },
            TrueInput {
                secret_key: Scalar::random(&mut rng),
                revealed_commitment: RevealedCommitment {
                    value: 7,
                    blinding: Scalar::random(&mut rng),
                },
            },
        ],
        decoy_inputs: (0..3)
            .map(|_| vec![random_decoy(&mut rng), random_decoy(&mut rng)])
            .collect(),
        outputs: vec![
            Output {
                public_key: G1Projective::random(&mut rng).to_affine(),
                amount: Scalar::from(4u64),
            },
            Output {
                public_key: G1Projective::random(&mut rng).to_affine(),
                amount: Scalar::from(8u64),
            },
        ],
    };
    let (mut sig, rings) = material.sign(b"two by four", &mut rng).unwrap();
    assert_eq!(rings.len(), 2);
    assert_eq!(rings[0].len(), 4);
    assert!(verify(b"two by four", &sig, &rings));

    sig.key_images.swap(0, 1);
    assert!(!verify(b"two by four", &sig, &rings));
}

#[test]
fn key_images_deterministic_across_randomness() {
    let mut setup_rng = seeded(21);
    let material = simple_material(9, 2, &mut setup_rng);

    let mut rng_a = seeded(22);
    let mut rng_b = seeded(23);
    let (sig_a, rings_a) = material.sign(b"twice", &mut rng_a).unwrap();
    let (sig_b, rings_b) = material.sign(b"twice", &mut rng_b).unwrap();

    assert_eq!(sig_a.key_images, sig_b.key_images);
    assert_ne!(sig_a.c0, sig_b.c0);
    assert!(verify(b"twice", &sig_a, &rings_a));
    assert!(verify(b"twice", &sig_b, &rings_b));
}

#[test]
fn ragged_decoy_matrix_fails_fast() {
    let mut rng = seeded(31);
    let material = RingCT {
        true_inputs: vec![
            TrueInput {
                secret_key: Scalar::random(&mut rng),
                revealed_commitment: RevealedCommitment {
                    value: 1,
                    blinding: Scalar::random(&mut rng),
                },
            },
            TrueInput {
                secret_key: Scalar::random(&mut rng),
                revealed_commitment: RevealedCommitment {
                    value: 2,
                    blinding: Scalar::random(&mut rng),
                },
            },
        ],
        decoy_inputs: vec![vec![random_decoy(&mut rng)]],
        outputs: vec![Output {
            public_key: G1Projective::random(&mut rng).to_affine(),
            amount: Scalar::from(3u64),
        }],
    };
    assert_eq!(
        material.sign(b"ragged", &mut rng).unwrap_err(),
        Error::RaggedDecoyMatrix
    );
}

#[test]
fn empty_outputs_fails_fast() {
    let mut rng = seeded(32);
    let mut material = simple_material(3, 1, &mut rng);
    material.outputs.clear();
    assert_eq!(
        material.sign(b"no outputs", &mut rng).unwrap_err(),
        Error::EmptyOutputs
    );
}

#[test]
fn unbalanced_amounts_break_the_commitment_identity() {
    let mut rng = seeded(33);
    let mut material = simple_material(3, 1, &mut rng);
    material.outputs[0].amount = Scalar::from(4u64);
    assert_eq!(
        material.sign(b"unbalanced", &mut rng).unwrap_err(),
        Error::ArithmeticIdentity
    );
}

#[test]
fn hash_to_scalar_is_deterministic() {
    let a = ringct::hash_to_scalar(&vec![1u8, 2, 3]);
    let b = ringct::hash_to_scalar(&vec![1u8, 2, 3]);
    let c = ringct::hash_to_scalar(&vec![1u8, 2, 4]);
    assert_eq!(a, b);
    assert_ne!(a, c);
}

#[test]
fn hash_domains_are_separated() {
    let input = TrueInput {
        secret_key: Scalar::from(1u64),
        revealed_commitment: RevealedCommitment {
            value: 0,
            blinding: Scalar::from(0u64),
        },
    };
    // With secret key one, the key image is the signature-domain hash of
    // the generator; the generic-domain hash of the same point must differ.
    let sig_domain_hash = input.key_image();
    let generic_domain_hash = ringct::hash_to_curve(G1Projective::generator());
    assert_ne!(sig_domain_hash, generic_domain_hash);
}

#[test]
fn commitment_uses_the_generator_set() {
    let gens = PedersenGens::default();
    let rc = RevealedCommitment {
        value: 7,
        blinding: Scalar::from(5u64),
    };
    let expected = gens.B * Scalar::from(7u64) + gens.B_blinding * Scalar::from(5u64);
    assert_eq!(rc.commit(&gens), expected);
    assert_eq!(rc.value(), 7);
    assert_eq!(rc.blinding(), Scalar::from(5u64));
}

#[test]
fn from_value_keeps_the_value() {
    let mut rng = seeded(41);
    let rc = RevealedCommitment::from_value(42, &mut rng);
    assert_eq!(rc.value(), 42);
}

#[test]
fn public_key_is_generator_times_secret() {
    let input = TrueInput {
        secret_key: Scalar::from(2u64),
        revealed_commitment: RevealedCommitment {
            value: 0,
            blinding: Scalar::from(0u64),
        },
    };
    let expected = G1Projective::generator() * Scalar::from(2u64);
    assert_eq!(input.public_key(), expected);
}

#[test]
fn no_decoys_still_signs_and_verifies() {
    let mut rng = seeded(51);
    let material = simple_material(6, 0, &mut rng);
    let (sig, rings) = material.sign(b"ring of one", &mut rng).unwrap();
    assert_eq!(rings[0].len(), 1);
    assert!(verify(b"ring of one", &sig, &rings));
}
