//! One signer's side of the three-round signing protocol.
//!
//! A party moves through its states in order, and each step consumes the
//! state before it: precommit to a nonce, reveal it, hand out a share of the
//! signature, and assemble the signature from everyone's shares. The caller
//! carries the messages between the parties.
use crate::bytes::equal_bytes;
use crate::errors::MusigError;
use crate::key::VerificationKey;
use crate::multikey::{aggregate, coefficient, key_encodings, Multikey};
use crate::point::{
    all_decode, point_add, point_sum, ristretto_decodes, ristretto_mul_base, CompressedPoint,
};
use crate::scalar::{group_order, Scalar};
use crate::signature::{
    challenge, satisfies_equation, schnorr_equation, signing_challenge, Signature,
};
use crate::transcript::{Transcript, TranscriptView};
use vstd::arithmetic::div_mod::{
    lemma_add_mod_noop, lemma_add_mod_noop_right, lemma_mul_mod_noop_left,
};
use vstd::prelude::*;
use vstd::string::*;

verus! {

/// The precommitment to a nonce point: 32 challenge bytes of a transcript
/// that holds nothing but the point.
pub open spec fn precommitment_of(nonce: Seq<u8>) -> Seq<u8> {
    TranscriptView::new("MuSig.nonce-precommit"@).append("R"@, nonce).challenge_bytes(
        "precommitment"@,
        32,
    )
}

/// A signer's binding commitment to its nonce point, sent in the first round.
#[derive(Clone, Copy, Debug, PartialEq, Eq)]
pub struct NoncePrecommitment(pub [u8; 32]);

impl View for NoncePrecommitment {
    type V = Seq<u8>;

    open spec fn view(&self) -> Seq<u8> {
        self.0@
    }
}

/// A signer's nonce point, revealed in the second round.
#[derive(Clone, Copy, Debug, PartialEq, Eq)]
pub struct NonceCommitment(pub CompressedPoint);

impl View for NonceCommitment {
    type V = Seq<u8>;

    open spec fn view(&self) -> Seq<u8> {
        self.0@
    }
}

impl NoncePrecommitment {
    /// Whether two precommitments are byte for byte the same.
    pub fn equals(&self, other: &NoncePrecommitment) -> (r: bool)
        ensures
            r == (self@ == other@),
    {
        equal_bytes(&self.0, &other.0)
    }
}

impl NonceCommitment {
    /// The precommitment that this nonce point opens.
    pub fn precommit(&self) -> (r: NoncePrecommitment)
        ensures
            r@ == precommitment_of(self@),
    {
        proof {
            reveal_strlit("MuSig.nonce-precommit");
            is_ascii_spec_bytes("MuSig.nonce-precommit");
        }
        let mut transcript = Transcript::new("MuSig.nonce-precommit");
        transcript.commit_point("R", &self.0);
        NoncePrecommitment(transcript.challenge_bytes::<32>("precommitment"))
    }
}

/// The encodings of a list of precommitments.
pub open spec fn precommitment_encodings(list: Seq<NoncePrecommitment>) -> Seq<Seq<u8>> {
    Seq::new(list.len(), |i: int| list[i]@)
}

/// The encodings of a list of nonce points.
pub open spec fn commitment_encodings(list: Seq<NonceCommitment>) -> Seq<Seq<u8>> {
    Seq::new(list.len(), |i: int| list[i]@)
}

/// The values of a list of scalars.
pub open spec fn scalar_values(list: Seq<Scalar>) -> Seq<nat> {
    Seq::new(list.len(), |i: int| list[i].value())
}

/// The sum of the first `n` numbers of a list.
pub open spec fn sum(values: Seq<nat>, n: nat) -> nat
    decreases n,
{
    if n == 0 {
        0
    } else {
        sum(values, (n - 1) as nat) + values[n - 1]
    }
}

/// What a party knows from the start: the transcript that holds the message,
/// its private key and nonce, the key set, and the keys of all participants
/// in order.
pub struct PartyView {
    pub transcript: TranscriptView,
    pub private_key: nat,
    pub nonce: nat,
    pub multikey: Seq<Seq<u8>>,
    pub public_keys: Seq<Seq<u8>>,
}

impl PartyView {
    /// The number of participants.
    pub open spec fn participants(self) -> nat {
        self.public_keys.len()
    }

    /// The party's nonce point.
    pub open spec fn nonce_point(self) -> Seq<u8> {
        ristretto_mul_base(self.nonce)
    }

    /// The party's own verification key.
    pub open spec fn own_key(self) -> Seq<u8> {
        ristretto_mul_base(self.private_key)
    }

    /// The challenge for the aggregated key and the sum of the revealed
    /// nonce points.
    pub open spec fn challenge(self, commitments: Seq<Seq<u8>>) -> nat {
        signing_challenge(
            self.transcript,
            aggregate(self.multikey),
            point_sum(commitments, self.participants()),
        )
    }

    /// What the party holds once it has the nonce points.
    pub open spec fn awaiting_shares(self, commitments: Seq<Seq<u8>>) -> SharesView {
        SharesView {
            multikey: self.multikey,
            public_keys: self.public_keys,
            challenge: self.challenge(commitments),
            commitments,
        }
    }

    /// The party's share `r + c·a·x` modulo the group order, where `a` is the
    /// aggregation coefficient of its own key.
    pub open spec fn share(self, commitments: Seq<Seq<u8>>) -> nat {
        (self.nonce + self.challenge(commitments) * coefficient(self.multikey, self.own_key())
            * self.private_key) % group_order()
    }
}

/// Whether position `i` holds a nonce point together with the precommitment
/// that it opens.
pub open spec fn opens(precommitments: Seq<Seq<u8>>, commitments: Seq<Seq<u8>>, i: int) -> bool {
    &&& 0 <= i < precommitments.len()
    &&& i < commitments.len()
    &&& precommitment_of(commitments[i]) == precommitments[i]
}

/// Whether the reveal round fails at position `i`: a participant's nonce
/// point is missing or does not open its precommitment, or, past the last
/// participant, the lists are not of the participants' number.
pub open spec fn reveal_fails_at(
    precommitments: Seq<Seq<u8>>,
    commitments: Seq<Seq<u8>>,
    n: nat,
    i: int,
) -> bool {
    if i < n {
        !opens(precommitments, commitments, i)
    } else {
        i == n && !(precommitments.len() == n && commitments.len() == n)
    }
}

/// Whether every participant's nonce point opens its precommitment, one of
/// each per participant.
pub open spec fn all_open(precommitments: Seq<Seq<u8>>, commitments: Seq<Seq<u8>>, n: nat) -> bool {
    forall|i: int| 0 <= i <= n ==> !reveal_fails_at(precommitments, commitments, n, i)
}

/// Whether `index` is the first position at which the reveal round fails.
pub open spec fn first_reveal_failure(
    precommitments: Seq<Seq<u8>>,
    commitments: Seq<Seq<u8>>,
    n: nat,
    index: int,
) -> bool {
    &&& 0 <= index <= n
    &&& reveal_fails_at(precommitments, commitments, n, index)
    &&& forall|j: int| 0 <= j < index ==> !reveal_fails_at(precommitments, commitments, n, j)
}

/// What a party holds while it waits for the shares: the key set, the
/// participants' keys, the challenge and the revealed nonce points.
pub struct SharesView {
    pub multikey: Seq<Seq<u8>>,
    pub public_keys: Seq<Seq<u8>>,
    pub challenge: nat,
    pub commitments: Seq<Seq<u8>>,
}

impl SharesView {
    /// The number of participants.
    pub open spec fn participants(self) -> nat {
        self.public_keys.len()
    }

    /// Whether the share at position `i` is there and satisfies
    /// `s_i·G == R_i + (c·a_i)·X_i`.
    pub open spec fn share_holds(self, shares: Seq<nat>, i: int) -> bool {
        &&& 0 <= i < shares.len()
        &&& schnorr_equation(
            shares[i],
            self.commitments[i],
            (self.challenge * coefficient(self.multikey, self.public_keys[i])) % group_order(),
            self.public_keys[i],
        )
    }

    /// The scalar of the assembled signature: the sum of the shares modulo
    /// the group order.
    pub open spec fn signature_scalar(self, shares: Seq<nat>) -> nat {
        sum(shares, shares.len()) % group_order()
    }

    /// The nonce point of the assembled signature: the sum of the revealed
    /// nonce points.
    pub open spec fn signature_nonce(self) -> Seq<u8> {
        point_sum(self.commitments, self.participants())
    }

    /// Whether the last round fails at position `i`: a participant's share is
    /// missing or invalid, or, past the last participant, there are more
    /// shares than participants.
    pub open spec fn share_fails_at(self, shares: Seq<nat>, i: int) -> bool {
        if i < self.participants() {
            !self.share_holds(shares, i)
        } else {
            i == self.participants() && shares.len() != self.participants()
        }
    }

    /// Whether there is one valid share per participant.
    pub open spec fn all_shares_hold(self, shares: Seq<nat>) -> bool {
        forall|i: int| 0 <= i <= self.participants() ==> !self.share_fails_at(shares, i)
    }

    /// Whether `index` is the first position at which the last round fails.
    pub open spec fn first_share_failure(self, shares: Seq<nat>, index: int) -> bool {
        &&& 0 <= index <= self.participants()
        &&& self.share_fails_at(shares, index)
        &&& forall|j: int| 0 <= j < index ==> !self.share_fails_at(shares, j)
    }
}

/// The entry point of the signing protocol.
pub struct Party {}

/// A party that has sent its precommitment and waits for everyone's.
#[allow(non_snake_case)]
pub struct PartyAwaitingPrecommitments {
    transcript: Transcript,
    multikey: Multikey,
    public_keys: Vec<VerificationKey>,
    x_i: Scalar,
    r_i: Scalar,
    R_i: NonceCommitment,
}

/// A party that has revealed its nonce point and waits for everyone's.
pub struct PartyAwaitingCommitments {
    transcript: Transcript,
    multikey: Multikey,
    public_keys: Vec<VerificationKey>,
    x_i: Scalar,
    r_i: Scalar,
    precommitments: Vec<NoncePrecommitment>,
}

/// A party that has handed out its share and waits for everyone's.
#[allow(non_snake_case)]
pub struct PartyAwaitingShares {
    multikey: Multikey,
    public_keys: Vec<VerificationKey>,
    c: Scalar,
    R: CompressedPoint,
    commitments: Vec<NonceCommitment>,
}

impl Party {
    /// Starts a signing session on a transcript that already holds the
    /// message: draws a fresh nonce and precommits to its point.
    pub fn new(
        transcript: &Transcript,
        x_i: Scalar,
        multikey: Multikey,
        pubkeys: Vec<VerificationKey>,
    ) -> (r: (PartyAwaitingPrecommitments, NoncePrecommitment))
        ensures
            r.0@.transcript == transcript@,
            r.0@.private_key == x_i.value(),
            r.0@.nonce < group_order(),
            r.0@.multikey == multikey@,
            r.0@.public_keys == key_encodings(pubkeys@),
            r.1@ == precommitment_of(r.0@.nonce_point()),
    {
        let r_i = Scalar::random();
        proof {
            use_type_invariant(&r_i);
        }
        Party::with_nonce(transcript, x_i, multikey, pubkeys, r_i)
    }

    /// Starts a signing session with the given nonce. A nonce must never
    /// serve for two sessions: whoever calls this answers for that.
    pub fn with_nonce(
        transcript: &Transcript,
        x_i: Scalar,
        multikey: Multikey,
        pubkeys: Vec<VerificationKey>,
        r_i: Scalar,
    ) -> (r: (PartyAwaitingPrecommitments, NoncePrecommitment))
        ensures
            r.0@ == (PartyView {
                transcript: transcript@,
                private_key: x_i.value(),
                nonce: r_i.value(),
                multikey: multikey@,
                public_keys: key_encodings(pubkeys@),
            }),
            r.1@ == precommitment_of(ristretto_mul_base(r_i.value())),
    {
        let nonce_point = NonceCommitment(CompressedPoint::mul_base(&r_i));
        let precommitment = nonce_point.precommit();
        let party = PartyAwaitingPrecommitments {
            transcript: transcript.clone(),
            multikey,
            public_keys: pubkeys,
            x_i,
            r_i,
            R_i: nonce_point,
        };
        (party, precommitment)
    }
}

impl View for PartyAwaitingPrecommitments {
    type V = PartyView;

    closed spec fn view(&self) -> PartyView {
        PartyView {
            transcript: self.transcript@,
            private_key: self.x_i.value(),
            nonce: self.r_i.value(),
            multikey: self.multikey@,
            public_keys: key_encodings(self.public_keys@),
        }
    }
}

impl PartyAwaitingPrecommitments {
    #[verifier::type_invariant]
    spec fn well_formed(&self) -> bool {
        self.R_i@ == ristretto_mul_base(self.r_i.value())
    }

    /// Takes everyone's precommitments, in the participants' order, and
    /// reveals the party's nonce point. The precommitments are checked in the
    /// next step, against what they open.
    pub fn receive_precommitments(self, nonce_precommitments: Vec<NoncePrecommitment>) -> (r: (
        PartyAwaitingCommitments,
        NonceCommitment,
    ))
        ensures
            r.0@ == (self@, precommitment_encodings(nonce_precommitments@)),
            r.1@ == self@.nonce_point(),
    {
        proof {
            use_type_invariant(&self);
        }
        let commitment = self.R_i;
        let next = PartyAwaitingCommitments {
            transcript: self.transcript,
            multikey: self.multikey,
            public_keys: self.public_keys,
            x_i: self.x_i,
            r_i: self.r_i,
            precommitments: nonce_precommitments,
        };
        (next, commitment)
    }
}

impl View for PartyAwaitingCommitments {
    type V = (PartyView, Seq<Seq<u8>>);

    /// The party, and the precommitments it received.
    closed spec fn view(&self) -> (PartyView, Seq<Seq<u8>>) {
        (
            PartyView {
                transcript: self.transcript@,
                private_key: self.x_i.value(),
                nonce: self.r_i.value(),
                multikey: self.multikey@,
                public_keys: key_encodings(self.public_keys@),
            },
            precommitment_encodings(self.precommitments@),
        )
    }
}

impl PartyAwaitingCommitments {
    /// Takes everyone's nonce points, in the participants' order. Each must
    /// open the precommitment received for its position, one of each per
    /// participant; the first position where that fails is reported. Each
    /// must then decode. The party's share of the signature is
    /// `r + c·a·x`, for the challenge `c` that the transcript gives for the
    /// aggregated key and the sum of the nonce points.
    pub fn receive_commitments(self, nonce_commitments: Vec<NonceCommitment>) -> (r: Result<
        (PartyAwaitingShares, Scalar),
        MusigError,
    >)
        ensures
            match r {
                Ok((next, share)) => {
                    &&& all_open(
                        self@.1,
                        commitment_encodings(nonce_commitments@),
                        self@.0.participants(),
                    )
                    &&& all_decode(commitment_encodings(nonce_commitments@))
                    &&& next@ == self@.0.awaiting_shares(commitment_encodings(nonce_commitments@))
                    &&& share.value() == self@.0.share(commitment_encodings(nonce_commitments@))
                },
                Err(MusigError::PrecommitmentMismatch { index }) => first_reveal_failure(
                    self@.1,
                    commitment_encodings(nonce_commitments@),
                    self@.0.participants(),
                    index as int,
                ),
                Err(MusigError::InvalidPoint) => {
                    &&& all_open(
                        self@.1,
                        commitment_encodings(nonce_commitments@),
                        self@.0.participants(),
                    )
                    &&& !all_decode(commitment_encodings(nonce_commitments@))
                },
                Err(_) => false,
            },
    {
        let ghost pre = self@.1;
        let ghost revealed = commitment_encodings(nonce_commitments@);
        let n = self.public_keys.len();
        let mut i: usize = 0;
        while i < n
            invariant
                i <= n,
                n == self@.0.participants(),
                pre == self@.1,
                pre == precommitment_encodings(self.precommitments@),
                revealed == commitment_encodings(nonce_commitments@),
                forall|j: int| 0 <= j < i ==> !reveal_fails_at(pre, revealed, n as nat, j),
            decreases n - i,
        {
            if i >= self.precommitments.len() || i >= nonce_commitments.len() {
                return Err(MusigError::PrecommitmentMismatch { index: i });
            }
            let opened = nonce_commitments[i].precommit();
            if !opened.equals(&self.precommitments[i]) {
                return Err(MusigError::PrecommitmentMismatch { index: i });
            }
            i += 1;
        }
        if self.precommitments.len() != n || nonce_commitments.len() != n {
            return Err(MusigError::PrecommitmentMismatch { index: n });
        }
        assert(all_open(pre, revealed, n as nat));
        let mut sum = CompressedPoint::identity();
        let mut i: usize = 0;
        while i < n
            invariant
                i <= n,
                n == nonce_commitments@.len(),
                n == self@.0.participants(),
                pre == self@.1,
                all_open(pre, revealed, n as nat),
                revealed == commitment_encodings(nonce_commitments@),
                forall|j: int| 0 <= j < i ==> ristretto_decodes(#[trigger] revealed[j]),
                ristretto_decodes(sum@),
                sum@ == point_sum(revealed, i as nat),
            decreases n - i,
        {
            if !nonce_commitments[i].0.is_valid() {
                assert(!ristretto_decodes(revealed[i as int]));
                return Err(MusigError::InvalidPoint);
            }
            assert(ristretto_decodes(revealed[i as int]));
            sum = point_add(&sum, &nonce_commitments[i].0);
            i += 1;
        }
        let aggregated = self.multikey.aggregated_key();
        let c = challenge(&self.transcript, &aggregated, &sum);
        let own = VerificationKey::from_secret(&self.x_i);
        let a = self.multikey.factor_for_key(&own);
        let share = self.r_i.add(&c.mul(&a).mul(&self.x_i));
        proof {
            let l = group_order() as int;
            let ca = (c.value() * a.value()) as int;
            let x = self.x_i.value() as int;
            lemma_mul_mod_noop_left(ca, x, l);
            lemma_add_mod_noop_right(self.r_i.value() as int, ca * x, l);
        }
        let next = PartyAwaitingShares {
            multikey: self.multikey,
            public_keys: self.public_keys,
            c,
            R: sum,
            commitments: nonce_commitments,
        };
        Ok((next, share))
    }
}

impl View for PartyAwaitingShares {
    type V = SharesView;

    closed spec fn view(&self) -> SharesView {
        SharesView {
            multikey: self.multikey@,
            public_keys: key_encodings(self.public_keys@),
            challenge: self.c.value(),
            commitments: commitment_encodings(self.commitments@),
        }
    }
}

impl PartyAwaitingShares {
    #[verifier::type_invariant]
    spec fn well_formed(&self) -> bool {
        &&& self.commitments@.len() == self.public_keys@.len()
        &&& all_decode(commitment_encodings(self.commitments@))
        &&& self.R@ == point_sum(commitment_encodings(self.commitments@), self.commitments@.len())
    }

    /// Takes everyone's shares, in the participants' order. Every
    /// participant's key must decode. Each share must then satisfy
    /// `s_i·G == R_i + (c·a_i)·X_i`, one share per participant; the first
    /// position where that fails is reported. The signature is the sum of the
    /// shares with the sum of the nonce points.
    pub fn receive_shares(self, shares: Vec<Scalar>) -> (r: Result<Signature, MusigError>)
        ensures
            match r {
                Ok(signature) => {
                    &&& all_decode(self@.public_keys)
                    &&& self@.all_shares_hold(scalar_values(shares@))
                    &&& signature.s.value() == self@.signature_scalar(scalar_values(shares@))
                    &&& signature.R@ == self@.signature_nonce()
                },
                Err(MusigError::InvalidPoint) => !all_decode(self@.public_keys),
                Err(MusigError::InvalidShare { index }) => {
                    &&& all_decode(self@.public_keys)
                    &&& self@.first_share_failure(scalar_values(shares@), index as int)
                },
                Err(_) => false,
            },
    {
        proof {
            use_type_invariant(&self);
        }
        let ghost view = self@;
        let ghost values = scalar_values(shares@);
        let n = self.public_keys.len();
        let mut i: usize = 0;
        while i < n
            invariant
                i <= n,
                n == self.public_keys@.len(),
                view == self@,
                forall|j: int| 0 <= j < i ==> ristretto_decodes(#[trigger] view.public_keys[j]),
            decreases n - i,
        {
            if !self.public_keys[i].0.is_valid() {
                assert(!ristretto_decodes(view.public_keys[i as int]));
                return Err(MusigError::InvalidPoint);
            }
            i += 1;
        }
        let mut s = Scalar::from_u64(0);
        let mut i: usize = 0;
        while i < n
            invariant
                i <= n,
                n == self.public_keys@.len(),
                n == self.commitments@.len(),
                view == self@,
                values == scalar_values(shares@),
                all_decode(view.public_keys),
                all_decode(view.commitments),
                forall|j: int| 0 <= j < i ==> !view.share_fails_at(values, j),
                s.value() == sum(values, i as nat) % group_order(),
            decreases n - i,
        {
            if i >= shares.len() {
                return Err(MusigError::InvalidShare { index: i });
            }
            let a = self.multikey.factor_for_key(&self.public_keys[i]);
            let ca = self.c.mul(&a);
            assert(ristretto_decodes(view.public_keys[i as int]));
            assert(ristretto_decodes(view.commitments[i as int]));
            if !satisfies_equation(&shares[i], &self.commitments[i].0, &ca, &self.public_keys[i].0) {
                return Err(MusigError::InvalidShare { index: i });
            }
            proof {
                lemma_add_mod_noop(
                    sum(values, i as nat) as int,
                    values[i as int] as int,
                    group_order() as int,
                );
            }
            s = s.add(&shares[i]);
            i += 1;
        }
        if shares.len() != n {
            return Err(MusigError::InvalidShare { index: n });
        }
        Ok(Signature { s, R: self.R })
    }
}

} // verus!
