//! Key aggregation: one verification key for an ordered set of signers.
use crate::errors::MusigError;
use crate::key::VerificationKey;
use crate::point::{
    all_decode, point_add, point_mul, point_sum, ristretto_decodes, ristretto_mul,
    CompressedPoint,
};
use crate::scalar::Scalar;
use crate::transcript::{Transcript, TranscriptView};
use vstd::bytes::spec_u64_to_le_bytes;
use vstd::prelude::*;
use vstd::string::*;

verus! {

/// The encodings of a list of keys.
pub open spec fn key_encodings(keys: Seq<VerificationKey>) -> Seq<Seq<u8>> {
    Seq::new(keys.len(), |i: int| keys[i]@)
}

/// The transcript that binds an ordered key set: the number of keys, then
/// each key in its position.
pub open spec fn binding_transcript(keys: Seq<Seq<u8>>) -> TranscriptView {
    TranscriptView {
        domain: "MuSig.aggregated-key"@,
        messages: seq![("n"@, spec_u64_to_le_bytes(keys.len() as u64))] + Seq::new(
            keys.len(),
            |i: int| ("X"@, keys[i]),
        ),
    }
}

/// The aggregation coefficient of `key` within an ordered key set: the
/// challenge scalar of the binding transcript extended by the key.
pub open spec fn coefficient(keys: Seq<Seq<u8>>, key: Seq<u8>) -> nat {
    binding_transcript(keys).append("X_i"@, key).challenge_scalar("a_i"@)
}

/// Each key of the set multiplied by its coefficient.
pub open spec fn weighted_keys(keys: Seq<Seq<u8>>) -> Seq<Seq<u8>> {
    Seq::new(keys.len(), |i: int| ristretto_mul(coefficient(keys, keys[i]), keys[i]))
}

/// The aggregated key of an ordered key set: the sum of the keys,
/// each multiplied by its coefficient.
pub open spec fn aggregate(keys: Seq<Seq<u8>>) -> Seq<u8> {
    point_sum(weighted_keys(keys), keys.len())
}

/// An ordered set of verification keys with the key they aggregate to.
pub struct Multikey {
    transcript: Transcript,
    keys: Vec<VerificationKey>,
    aggregated_key: VerificationKey,
}

impl View for Multikey {
    type V = Seq<Seq<u8>>;

    /// The encodings of the keys, in order.
    closed spec fn view(&self) -> Seq<Seq<u8>> {
        key_encodings(self.keys@)
    }
}

impl Clone for Multikey {
    fn clone(&self) -> (r: Multikey)
        ensures
            r@ == self@,
    {
        proof {
            use_type_invariant(self);
        }
        let mut keys: Vec<VerificationKey> = Vec::new();
        let mut i: usize = 0;
        while i < self.keys.len()
            invariant
                i <= self.keys.len(),
                keys@ == self.keys@.take(i as int),
            decreases self.keys.len() - i,
        {
            keys.push(self.keys[i]);
            assert(self.keys@.take(i + 1) =~= self.keys@.take(i as int).push(self.keys@[i as int]));
            i += 1;
        }
        assert(keys@ =~= self.keys@);
        Multikey { transcript: self.transcript.clone(), keys, aggregated_key: self.aggregated_key }
    }
}

impl Multikey {
    /// The encoding of the key that this key set holds as its aggregate.
    pub closed spec fn held_key(&self) -> Seq<u8> {
        self.aggregated_key@
    }

    /// What holds of every key set: it is not empty, its keys decode, and the
    /// key it holds is the aggregate of its keys.
    #[verifier::type_invariant]
    pub closed spec fn valid(&self) -> bool {
        &&& self.keys@.len() > 0
        &&& all_decode(self@)
        &&& self.transcript@ == binding_transcript(self@)
        &&& self.aggregated_key@ == aggregate(self@)
        &&& ristretto_decodes(self.aggregated_key@)
    }

    /// Aggregates an ordered key set. An empty set is refused, and so is a
    /// set with a key that encodes no group element.
    pub fn new(keys: Vec<VerificationKey>) -> (r: Result<Multikey, MusigError>)
        ensures
            match r {
                Ok(multikey) => {
                    &&& keys@.len() > 0
                    &&& all_decode(key_encodings(keys@))
                    &&& multikey@ == key_encodings(keys@)
                },
                Err(e) => {
                    &&& e == if keys@.len() == 0 {
                        MusigError::EmptyKeySet
                    } else {
                        MusigError::InvalidPoint
                    }
                    &&& keys@.len() == 0 || !all_decode(key_encodings(keys@))
                },
            },
    {
        let n = keys.len();
        if n == 0 {
            return Err(MusigError::EmptyKeySet);
        }
        let ghost encodings = key_encodings(keys@);
        let mut i: usize = 0;
        while i < n
            invariant
                i <= n,
                n == keys@.len(),
                encodings == key_encodings(keys@),
                forall|j: int| 0 <= j < i ==> ristretto_decodes(#[trigger] encodings[j]),
            decreases n - i,
        {
            if !keys[i].0.is_valid() {
                assert(!ristretto_decodes(encodings[i as int]));
                return Err(MusigError::InvalidPoint);
            }
            i += 1;
        }
        let transcript = bind_keys(&keys);
        let mut sum = CompressedPoint::identity();
        let mut i: usize = 0;
        while i < n
            invariant
                i <= n,
                n == keys@.len(),
                encodings == key_encodings(keys@),
                all_decode(encodings),
                transcript@ == binding_transcript(encodings),
                ristretto_decodes(sum@),
                sum@ == point_sum(weighted_keys(encodings), i as nat),
            decreases n - i,
        {
            let factor = key_factor(&transcript, &keys[i]);
            assert(ristretto_decodes(encodings[i as int]));
            let term = point_mul(&factor, &keys[i].0);
            sum = point_add(&sum, &term);
            i += 1;
        }
        Ok(Multikey { transcript, keys, aggregated_key: VerificationKey(sum) })
    }

    /// The aggregated key.
    pub fn aggregated_key(&self) -> (r: VerificationKey)
        ensures
            r@ == self.held_key(),
            r@ == aggregate(self@),
            ristretto_decodes(r@),
    {
        proof {
            use_type_invariant(self);
        }
        self.aggregated_key
    }

    /// The aggregation coefficient of a key within this key set.
    pub fn factor_for_key(&self, key: &VerificationKey) -> (r: Scalar)
        ensures
            r.value() == coefficient(self@, key@),
    {
        proof {
            use_type_invariant(self);
        }
        key_factor(&self.transcript, key)
    }

    /// The number of keys.
    pub fn len(&self) -> (r: usize)
        ensures
            r == self@.len(),
            r > 0,
    {
        proof {
            use_type_invariant(self);
        }
        self.keys.len()
    }

    /// The key at a position.
    pub fn key(&self, index: usize) -> (r: Option<VerificationKey>)
        ensures
            r.is_some() == (index < self@.len()),
            r matches Some(k) ==> k@ == self@[index as int] && ristretto_decodes(k@),
    {
        proof {
            use_type_invariant(self);
        }
        if index < self.keys.len() {
            assert(ristretto_decodes(self@[index as int]));
            Some(self.keys[index])
        } else {
            None
        }
    }
}

/// The binding transcript of a key list.
fn bind_keys(keys: &Vec<VerificationKey>) -> (r: Transcript)
    ensures
        r@ == binding_transcript(key_encodings(keys@)),
{
    proof {
        reveal_strlit("MuSig.aggregated-key");
        is_ascii_spec_bytes("MuSig.aggregated-key");
    }
    let ghost encodings = key_encodings(keys@);
    let mut transcript = Transcript::new("MuSig.aggregated-key");
    transcript.commit_u64("n", keys.len() as u64);
    assert(transcript@.messages =~= seq![("n"@, spec_u64_to_le_bytes(keys@.len() as u64))]);
    let mut i: usize = 0;
    while i < keys.len()
        invariant
            i <= keys.len(),
            encodings == key_encodings(keys@),
            transcript@.domain == "MuSig.aggregated-key"@,
            transcript@.messages == seq![("n"@, spec_u64_to_le_bytes(keys@.len() as u64))]
                + Seq::new(i as nat, |j: int| ("X"@, encodings[j])),
        decreases keys.len() - i,
    {
        transcript.commit_point("X", &keys[i].0);
        assert(transcript@.messages =~= seq![("n"@, spec_u64_to_le_bytes(keys@.len() as u64))]
            + Seq::new((i + 1) as nat, |j: int| ("X"@, encodings[j])));
        i += 1;
    }
    assert(transcript@.messages =~= binding_transcript(encodings).messages);
    transcript
}

/// The challenge scalar of a transcript extended by one key.
fn key_factor(transcript: &Transcript, key: &VerificationKey) -> (r: Scalar)
    ensures
        r.value() == transcript@.append("X_i"@, key@).challenge_scalar("a_i"@),
{
    let mut extended = transcript.clone();
    extended.commit_point("X_i", &key.0);
    extended.challenge_scalar("a_i")
}

/// What a valid key set holds: keys that decode, at least one, and their
/// aggregate.
pub proof fn lemma_valid_multikey(multikey: Multikey)
    requires
        multikey.valid(),
    ensures
        multikey@.len() > 0,
        all_decode(multikey@),
        multikey.held_key() == aggregate(multikey@),
        ristretto_decodes(multikey.held_key()),
{
}

} // verus!
