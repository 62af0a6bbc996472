//! Signatures and their verification.
use crate::errors::MusigError;
use crate::key::VerificationKey;
use crate::point::{
    point_add, point_mul, ristretto_add, ristretto_decodes, ristretto_mul, ristretto_mul_base,
    CompressedPoint,
};
use crate::scalar::{group_order, le_value, Scalar};
use crate::transcript::{Transcript, TranscriptView};
use vstd::prelude::*;

verus! {

/// The challenge that binds a signature to a key, a nonce and the message:
/// the challenge scalar of the message's transcript after the key and the
/// nonce were appended, in this order.
pub open spec fn signing_challenge(
    transcript: TranscriptView,
    key: Seq<u8>,
    nonce: Seq<u8>,
) -> nat {
    transcript.append("X"@, key).append("R"@, nonce).challenge_scalar("c"@)
}

/// The Schnorr equation `s·G == R + c·X`, on encodings.
pub open spec fn schnorr_equation(s: nat, nonce: Seq<u8>, c: nat, key: Seq<u8>) -> bool {
    ristretto_mul_base(s) == ristretto_add(nonce, ristretto_mul(c, key))
}

/// What verification answers for a transcript, a signature and a key.
pub open spec fn verification(
    transcript: TranscriptView,
    s: nat,
    nonce: Seq<u8>,
    key: Seq<u8>,
) -> Result<(), MusigError> {
    if !ristretto_decodes(key) || !ristretto_decodes(nonce) {
        Err(MusigError::InvalidPoint)
    } else if schnorr_equation(s, nonce, signing_challenge(transcript, key, nonce), key) {
        Ok(())
    } else {
        Err(MusigError::VerificationFailed)
    }
}

/// A signature: the scalar `s` and the encoding of the nonce point `R`.
#[allow(non_snake_case)]
#[derive(Clone, Copy, Debug, PartialEq, Eq)]
pub struct Signature {
    pub s: Scalar,
    pub R: CompressedPoint,
}

impl Signature {
    /// The 64 bytes of the signature on the wire: the canonical encoding of
    /// `s`, then the encoding of `R`.
    pub open spec fn encoding(&self) -> Seq<u8> {
        self.s.encoding() + self.R@
    }

    /// The signature on the wire.
    pub fn to_bytes(&self) -> (r: [u8; 64])
        ensures
            r@ == self.encoding(),
    {
        proof {
            Scalar::lemma_encoding_len(self.s);
        }
        let s = self.s.to_bytes();
        let nonce = self.R.to_bytes();
        let mut out = [0u8; 64];
        let mut i: usize = 0;
        while i < 32
            invariant
                i <= 32,
                forall|j: int| 0 <= j < i ==> out@[j] == s@[j] && out@[32 + j] == nonce@[j],
            decreases 32 - i,
        {
            out[i] = s[i];
            out[32 + i] = nonce[i];
            i += 1;
        }
        assert(out@ =~= s@ + nonce@);
        out
    }

    /// The signature that 64 bytes hold, where the first 32 are the canonical
    /// encoding of a scalar. The last 32 are taken as the nonce point, which
    /// is validated when the signature is verified.
    pub fn from_bytes(bytes: &[u8; 64]) -> (r: Option<Signature>)
        ensures
            r.is_some() == (le_value(bytes@.subrange(0, 32)) < group_order()),
            r matches Some(signature) ==> signature.encoding() == bytes@,
    {
        let mut s = [0u8; 32];
        let mut nonce = [0u8; 32];
        let mut i: usize = 0;
        while i < 32
            invariant
                i <= 32,
                forall|j: int| 0 <= j < i ==> s@[j] == bytes@[j] && nonce@[j] == bytes@[32 + j],
            decreases 32 - i,
        {
            s[i] = bytes[i];
            nonce[i] = bytes[32 + i];
            i += 1;
        }
        assert(s@ =~= bytes@.subrange(0, 32));
        assert(nonce@ =~= bytes@.subrange(32, 64));
        match Scalar::from_canonical_bytes(s) {
            Some(s) => {
                assert(s.encoding() + nonce@ =~= bytes@);
                Some(Signature { s, R: CompressedPoint(nonce) })
            },
            None => None,
        }
    }

    /// Verifies the signature against a key. The transcript holds the message
    /// and is left as it is. The signature is accepted exactly if the key and
    /// the nonce decode and `s·G == R + c·X` for the challenge `c` that the
    /// transcript gives for the key and the nonce.
    #[allow(non_snake_case)]
    pub fn verify(&self, transcript: &Transcript, X: VerificationKey) -> (r: Result<(), MusigError>)
        ensures
            r == verification(transcript@, self.s.value(), self.R@, X@),
    {
        let c = challenge(transcript, &X, &self.R);
        if !X.0.is_valid() || !self.R.is_valid() {
            return Err(MusigError::InvalidPoint);
        }
        if satisfies_equation(&self.s, &self.R, &c, &X.0) {
            Ok(())
        } else {
            Err(MusigError::VerificationFailed)
        }
    }
}

/// The signing challenge for a key and a nonce, on a copy of the transcript.
pub fn challenge(
    transcript: &Transcript,
    key: &VerificationKey,
    nonce: &CompressedPoint,
) -> (c: Scalar)
    ensures
        c.value() == signing_challenge(transcript@, key@, nonce@),
{
    let mut bound = transcript.clone();
    bound.commit_point("X", &key.0);
    bound.commit_point("R", nonce);
    bound.challenge_scalar("c")
}

/// Whether `s·G == R + c·X` for valid points `R` and `X`.
pub(crate) fn satisfies_equation(
    s: &Scalar,
    nonce: &CompressedPoint,
    c: &Scalar,
    key: &CompressedPoint,
) -> (r: bool)
    requires
        ristretto_decodes(nonce@),
        ristretto_decodes(key@),
    ensures
        r == schnorr_equation(s.value(), nonce@, c.value(), key@),
{
    let left = CompressedPoint::mul_base(s);
    let right = point_add(nonce, &point_mul(c, key));
    left.equals(&right)
}

} // verus!
