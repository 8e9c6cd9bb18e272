//! A linkable ring signature core for confidential transactions.
//!
//! The scheme signs a message with a Multilayered Linkable Spontaneous
//! Anonymous Group (MLSAG) signature over a matrix of ring entries, while
//! Pedersen pseudo-commitments rebalance the hidden input amounts against
//! the output amounts.  Signing twice with the same spending key yields
//! the same key image, which is what makes double spending detectable.

use vstd::prelude::*;

pub mod commit;
pub mod curve;
pub mod hash;
pub mod mlsag;
pub mod ringct;

pub use commit::RevealedCommitment;
pub use hash::hash_to_curve;
pub use hash::hash_to_scalar;
pub use mlsag::{DecoyInput, MlsagSignature, TrueInput};
pub use ringct::{verify, Output, RingCT, RingCTSignature};

verus! {

/// Ways a signing request can be refused.
#[derive(Debug, Clone, Copy, PartialEq, Eq, Structural)]
pub enum Error {
    /// A decoy row does not have one entry per input column.
    RaggedDecoyMatrix,
    /// No outputs were supplied.
    EmptyOutputs,
    /// A group identity that the construction guarantees did not hold;
    /// this indicates a defect in the underlying curve arithmetic.
    ArithmeticIdentity,
}

} // verus!
