//! Verification keys.
use crate::point::{ristretto_mul_base, CompressedPoint};
use crate::scalar::Scalar;
use vstd::prelude::*;

verus! {

/// A signer's public key: the encoding of a group element. It is validated
/// where it is used.
#[derive(Clone, Copy, Debug, PartialEq, Eq)]
pub struct VerificationKey(pub CompressedPoint);

impl View for VerificationKey {
    type V = Seq<u8>;

    open spec fn view(&self) -> Seq<u8> {
        self.0@
    }
}

impl VerificationKey {
    /// The key that belongs to a private key: the private key times the base
    /// point.
    pub fn from_secret(private_key: &Scalar) -> (r: VerificationKey)
        ensures
            r@ == ristretto_mul_base(private_key.value()),
    {
        VerificationKey(CompressedPoint::mul_base(private_key))
    }
}

} // verus!
