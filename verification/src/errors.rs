//! The ways in which key aggregation, signing and verification fail.
use vstd::prelude::*;

verus! {

/// Why a step of the protocol was refused. Every failure is final for the
/// step that reports it.
#[derive(Clone, Copy, Debug, PartialEq, Eq)]
pub enum MusigError {
    /// The key set to aggregate is empty.
    EmptyKeySet,
    /// Some bytes that should encode a group element do not.
    InvalidPoint,
    /// The nonce that the peer at `index` revealed does not match the
    /// precommitment it sent before.
    PrecommitmentMismatch { index: usize },
    /// The share of the peer at `index` does not satisfy its equation.
    InvalidShare { index: usize },
    /// The signature does not satisfy the verification equation.
    VerificationFailed,
}

} // verus!
