use curve25519_dalek::constants::RISTRETTO_BASEPOINT_POINT;
use curve25519_dalek::ristretto::CompressedRistretto;
use musig::errors::MusigError;
use musig::key::VerificationKey;
use musig::multikey::Multikey;
use musig::point::CompressedPoint;
use musig::scalar::Scalar;
use musig::signature::{challenge, Signature};
use musig::signer::{
    NonceCommitment, NoncePrecommitment, Party, PartyAwaitingCommitments,
    PartyAwaitingPrecommitments, PartyAwaitingShares,
};
use musig::transcript::Transcript;

type DalekScalar = curve25519_dalek::scalar::Scalar;

fn scalars(values: &[u64]) -> Vec<Scalar> {
    values.iter().map(|x| Scalar::from_u64(*x)).collect()
}

fn keys_of(secrets: &[Scalar]) -> Vec<VerificationKey> {
    secrets.iter().map(VerificationKey::from_secret).collect()
}

fn seeded(message: &[u8]) -> Transcript {
    let mut transcript = Transcript::new("signing test");
    transcript.commit_bytes("message", message);
    transcript
}

fn to_dalek(s: &Scalar) -> DalekScalar {
    DalekScalar::from_canonical_bytes(s.to_bytes()).unwrap()
}

struct Session {
    multikey: Multikey,
    pubkeys: Vec<VerificationKey>,
    precommitments: Vec<NoncePrecommitment>,
    commitments: Vec<NonceCommitment>,
    shares: Vec<Scalar>,
    awaiting_precommitments: Vec<PartyAwaitingPrecommitments>,
    awaiting_commitments: Vec<PartyAwaitingCommitments>,
    awaiting_shares: Vec<PartyAwaitingShares>,
}

/// Runs the session up to the given round (1, 2 or 3) with fixed nonces.
fn run(secrets: &[Scalar], nonces: &[Scalar], message: &[u8], rounds: usize) -> Session {
    let pubkeys = keys_of(secrets);
    let multikey = Multikey::new(pubkeys.clone()).unwrap();
    let transcript = seeded(message);
    let mut session = Session {
        multikey: multikey.clone(),
        pubkeys: pubkeys.clone(),
        precommitments: Vec::new(),
        commitments: Vec::new(),
        shares: Vec::new(),
        awaiting_precommitments: Vec::new(),
        awaiting_commitments: Vec::new(),
        awaiting_shares: Vec::new(),
    };
    for (x, r) in secrets.iter().zip(nonces.iter()) {
        let (party, precommitment) =
            Party::with_nonce(&transcript, *x, multikey.clone(), pubkeys.clone(), *r);
        session.awaiting_precommitments.push(party);
        session.precommitments.push(precommitment);
    }
    if rounds < 2 {
        return session;
    }
    for party in std::mem::take(&mut session.awaiting_precommitments) {
        let (party, commitment) = party.receive_precommitments(session.precommitments.clone());
        session.awaiting_commitments.push(party);
        session.commitments.push(commitment);
    }
    if rounds < 3 {
        return session;
    }
    for party in std::mem::take(&mut session.awaiting_commitments) {
        let (party, share) = party
            .receive_commitments(session.commitments.clone())
            .unwrap();
        session.awaiting_shares.push(party);
        session.shares.push(share);
    }
    session
}

fn sign(secrets: &[Scalar], nonces: &[Scalar], message: &[u8]) -> (Signature, Multikey) {
    let mut session = run(secrets, nonces, message, 3);
    let mut signatures = Vec::new();
    for party in std::mem::take(&mut session.awaiting_shares) {
        signatures.push(party.receive_shares(session.shares.clone()).unwrap());
    }
    for signature in &signatures {
        assert_eq!(signature.s, signatures[0].s);
        assert_eq!(signature.R, signatures[0].R);
    }
    (signatures[0], session.multikey)
}

#[test]
fn round_trip_for_several_sets_and_messages() {
    let sets: Vec<Vec<u64>> = vec![vec![1, 2, 3, 4], vec![42], vec![5, 5], vec![9, 8, 7, 6, 5, 4, 3]];
    let messages: Vec<&[u8]> = vec![b"message to sign", b"", b"another message"];
    for set in &sets {
        for message in &messages {
            let secrets = scalars(set);
            let nonces: Vec<Scalar> = set.iter().map(|_| Scalar::random()).collect();
            let (signature, multikey) = sign(&secrets, &nonces, message);
            assert_eq!(
                signature.verify(&seeded(message), multikey.aggregated_key()),
                Ok(())
            );
        }
    }
}

#[test]
fn round_trip_with_fresh_nonces() {
    let secrets = scalars(&[11, 12, 13]);
    let pubkeys = keys_of(&secrets);
    let multikey = Multikey::new(pubkeys.clone()).unwrap();
    let transcript = seeded(b"fresh");
    let mut parties = Vec::new();
    let mut precommitments = Vec::new();
    for x in &secrets {
        let (party, precommitment) = Party::new(&transcript, *x, multikey.clone(), pubkeys.clone());
        parties.push(party);
        precommitments.push(precommitment);
    }
    // fresh nonces: no two parties precommit to the same point
    assert!(precommitments[0] != precommitments[1]);
    assert!(precommitments[1] != precommitments[2]);
    let mut next = Vec::new();
    let mut commitments = Vec::new();
    for party in parties {
        let (party, commitment) = party.receive_precommitments(precommitments.clone());
        next.push(party);
        commitments.push(commitment);
    }
    for (commitment, precommitment) in commitments.iter().zip(precommitments.iter()) {
        assert_eq!(commitment.precommit(), *precommitment);
        assert!(commitment.0.is_valid());
    }
    let mut last = Vec::new();
    let mut shares = Vec::new();
    for party in next {
        let (party, share) = party.receive_commitments(commitments.clone()).unwrap();
        last.push(party);
        shares.push(share);
    }
    for party in last {
        let signature = party.receive_shares(shares.clone()).unwrap();
        assert_eq!(signature.verify(&transcript, multikey.aggregated_key()), Ok(()));
    }
}

#[test]
fn signature_is_sum_of_shares_and_sum_of_nonce_points() {
    let secrets = scalars(&[1, 2, 3, 4]);
    let nonces = scalars(&[100, 200, 300, 400]);
    let session = run(&secrets, &nonces, b"message to sign", 3);
    let (signature, _) = sign(&secrets, &nonces, b"message to sign");
    let mut s = Scalar::from_u64(0);
    for share in &session.shares {
        s = s.add(share);
    }
    assert_eq!(signature.s, s);
    // the nonces add up to 1000
    assert_eq!(signature.R, CompressedPoint::mul_base(&Scalar::from_u64(1000)));
}

#[test]
fn precommitment_is_the_hash_of_the_nonce_point() {
    let secrets = scalars(&[1, 2]);
    let nonces = scalars(&[7, 8]);
    let session = run(&secrets, &nonces, b"m", 2);
    let nonce_point = (RISTRETTO_BASEPOINT_POINT * DalekScalar::from(7u64)).compress();
    assert_eq!(session.commitments[0].0.to_bytes(), nonce_point.to_bytes());
    let mut t = merlin::Transcript::new(b"MuSig.nonce-precommit");
    t.append_message(b"R", nonce_point.as_bytes());
    let mut expected = [0u8; 32];
    t.challenge_bytes(b"precommitment", &mut expected);
    assert_eq!(session.precommitments[0].0, expected);
    assert!(session.precommitments[0].equals(&NoncePrecommitment(expected)));
    assert!(!session.precommitments[0].equals(&session.precommitments[1]));
}

#[test]
fn share_is_nonce_plus_challenge_times_coefficient_times_key() {
    let secrets = scalars(&[1, 2, 3, 4]);
    let nonces = scalars(&[10, 20, 30, 40]);
    let message = b"message to sign";
    let session = run(&secrets, &nonces, message, 3);

    let nonce_sum = CompressedPoint::mul_base(&Scalar::from_u64(100));
    let c = challenge(&seeded(message), &session.multikey.aggregated_key(), &nonce_sum);
    // the challenge, from Merlin directly
    let mut t = merlin::Transcript::new(b"signing test");
    t.append_message(b"message", message);
    t.append_message(b"X", &session.multikey.aggregated_key().0.to_bytes());
    t.append_message(b"R", &nonce_sum.to_bytes());
    let mut wide = [0u8; 64];
    t.challenge_bytes(b"c", &mut wide);
    assert_eq!(
        c.to_bytes(),
        DalekScalar::from_bytes_mod_order_wide(&wide).to_bytes()
    );

    for i in 0..4 {
        let a = session.multikey.factor_for_key(&session.pubkeys[i]);
        let expected = to_dalek(&nonces[i]) + to_dalek(&c) * to_dalek(&a) * to_dalek(&secrets[i]);
        assert_eq!(session.shares[i].to_bytes(), expected.to_bytes());
    }
}

#[test]
fn verification_is_the_schnorr_equation() {
    // a single-signer signature made by hand: s = r + c·x for the key x·G
    let x = Scalar::from_u64(1234);
    let r = Scalar::from_u64(5678);
    let key = VerificationKey::from_secret(&x);
    let nonce_point = CompressedPoint::mul_base(&r);
    let transcript = seeded(b"by hand");
    let c = challenge(&transcript, &key, &nonce_point);
    let signature = Signature { s: r.add(&c.mul(&x)), R: nonce_point };
    assert_eq!(signature.verify(&transcript, key), Ok(()));
    // the same check, with the outside crate alone
    let left = RISTRETTO_BASEPOINT_POINT * to_dalek(&signature.s);
    let right = CompressedRistretto(nonce_point.to_bytes()).decompress().unwrap()
        + to_dalek(&c) * CompressedRistretto(key.0.to_bytes()).decompress().unwrap();
    assert_eq!(left.compress(), right.compress());

    let off_by_one = Signature { s: signature.s.add(&Scalar::from_u64(1)), R: nonce_point };
    assert_eq!(
        off_by_one.verify(&transcript, key),
        Err(MusigError::VerificationFailed)
    );
}

#[test]
fn verification_leaves_the_transcript_as_it_is() {
    let secrets = scalars(&[1, 2, 3, 4]);
    let nonces = scalars(&[10, 20, 30, 40]);
    let (signature, multikey) = sign(&secrets, &nonces, b"twice");
    let transcript = seeded(b"twice");
    let before = transcript.challenge_bytes::<32>("probe");
    assert_eq!(signature.verify(&transcript, multikey.aggregated_key()), Ok(()));
    assert_eq!(signature.verify(&transcript, multikey.aggregated_key()), Ok(()));
    assert_eq!(transcript.challenge_bytes::<32>("probe"), before);
}

#[test]
fn verification_fails_for_another_message_key_or_domain() {
    let secrets = scalars(&[1, 2, 3, 4]);
    let nonces = scalars(&[10, 20, 30, 40]);
    let (signature, multikey) = sign(&secrets, &nonces, b"message to sign");
    let key = multikey.aggregated_key();
    assert_eq!(signature.verify(&seeded(b"message to sign"), key), Ok(()));
    assert_eq!(
        signature.verify(&seeded(b"message to sigh"), key),
        Err(MusigError::VerificationFailed)
    );
    let mut other_domain = Transcript::new("another test");
    other_domain.commit_bytes("message", b"message to sign");
    assert_eq!(
        signature.verify(&other_domain, key),
        Err(MusigError::VerificationFailed)
    );
    let other_key = Multikey::new(keys_of(&scalars(&[1, 2, 3, 5])))
        .unwrap()
        .aggregated_key();
    assert_eq!(
        signature.verify(&seeded(b"message to sign"), other_key),
        Err(MusigError::VerificationFailed)
    );
    // a single signer's key is not the aggregated key
    assert_eq!(
        signature.verify(&seeded(b"message to sign"), keys_of(&secrets)[0]),
        Err(MusigError::VerificationFailed)
    );
}

#[test]
fn verification_reports_undecodable_points() {
    let secrets = scalars(&[1, 2]);
    let nonces = scalars(&[10, 20]);
    let (signature, multikey) = sign(&secrets, &nonces, b"m");
    let bad = CompressedPoint([0xff; 32]);
    assert_eq!(
        signature.verify(&seeded(b"m"), VerificationKey(bad)),
        Err(MusigError::InvalidPoint)
    );
    let bad_nonce = Signature { s: signature.s, R: bad };
    assert_eq!(
        bad_nonce.verify(&seeded(b"m"), multikey.aggregated_key()),
        Err(MusigError::InvalidPoint)
    );
    assert_eq!(
        bad_nonce.verify(&seeded(b"m"), VerificationKey(bad)),
        Err(MusigError::InvalidPoint)
    );
}

#[test]
fn tampering_with_any_byte_is_detected() {
    let secrets = scalars(&[1, 2, 3, 4]);
    let nonces = scalars(&[10, 20, 30, 40]);
    for message in [&b"message to sign"[..], &b"other"[..]] {
        let (signature, multikey) = sign(&secrets, &nonces, message);
        let key = multikey.aggregated_key();
        let transcript = seeded(message);
        assert_eq!(signature.verify(&transcript, key), Ok(()));
        for position in 0..32 {
            for bit in [0x01u8, 0x10, 0x80] {
                let mut s_bytes = signature.s.to_bytes();
                s_bytes[position] ^= bit;
                // bytes that are no canonical scalar make no signature at all
                if let Some(s) = Scalar::from_canonical_bytes(s_bytes) {
                    let tampered = Signature { s, R: signature.R };
                    assert_eq!(
                        tampered.verify(&transcript, key),
                        Err(MusigError::VerificationFailed)
                    );
                }
                let mut r_bytes = signature.R.to_bytes();
                r_bytes[position] ^= bit;
                let tampered = Signature { s: signature.s, R: CompressedPoint(r_bytes) };
                let expected = if CompressedPoint(r_bytes).is_valid() {
                    MusigError::VerificationFailed
                } else {
                    MusigError::InvalidPoint
                };
                assert_eq!(tampered.verify(&transcript, key), Err(expected));
            }
        }
    }
}

#[test]
fn substituted_nonce_is_refused_before_any_share() {
    let secrets = scalars(&[1, 2, 3, 4]);
    let nonces = scalars(&[10, 20, 30, 40]);
    for cheater in 0..4 {
        let mut session = run(&secrets, &nonces, b"m", 2);
        let mut commitments = session.commitments.clone();
        commitments[cheater] = NonceCommitment(CompressedPoint::mul_base(&Scalar::from_u64(99)));
        for party in std::mem::take(&mut session.awaiting_commitments) {
            assert_eq!(
                party.receive_commitments(commitments.clone()).err(),
                Some(MusigError::PrecommitmentMismatch { index: cheater })
            );
        }
    }
}

#[test]
fn first_mismatch_is_reported() {
    let secrets = scalars(&[1, 2, 3, 4]);
    let nonces = scalars(&[10, 20, 30, 40]);
    let mut session = run(&secrets, &nonces, b"m", 2);
    let mut commitments = session.commitments.clone();
    commitments.swap(1, 3);
    let party = session.awaiting_commitments.remove(0);
    assert_eq!(
        party.receive_commitments(commitments).err(),
        Some(MusigError::PrecommitmentMismatch { index: 1 })
    );
    // a mismatch is reported before an undecodable point that stands earlier
    let mut commitments = session.commitments.clone();
    commitments[2] = NonceCommitment(CompressedPoint::mul_base(&Scalar::from_u64(5)));
    let party = session.awaiting_commitments.remove(0);
    assert_eq!(
        party.receive_commitments(commitments).err(),
        Some(MusigError::PrecommitmentMismatch { index: 2 })
    );
}

#[test]
fn missing_and_surplus_nonce_points_are_refused() {
    let secrets = scalars(&[1, 2, 3]);
    let nonces = scalars(&[10, 20, 30]);
    let mut session = run(&secrets, &nonces, b"m", 2);
    let mut short = session.commitments.clone();
    short.pop();
    let party = session.awaiting_commitments.remove(0);
    assert_eq!(
        party.receive_commitments(short).err(),
        Some(MusigError::PrecommitmentMismatch { index: 2 })
    );
    let mut long = session.commitments.clone();
    long.push(session.commitments[0]);
    let party = session.awaiting_commitments.remove(0);
    assert_eq!(
        party.receive_commitments(long).err(),
        Some(MusigError::PrecommitmentMismatch { index: 3 })
    );
    let party = session.awaiting_commitments.remove(0);
    assert_eq!(
        party.receive_commitments(Vec::new()).err(),
        Some(MusigError::PrecommitmentMismatch { index: 0 })
    );
}

#[test]
fn missing_and_surplus_precommitments_are_refused() {
    let secrets = scalars(&[1, 2, 3]);
    let nonces = scalars(&[10, 20, 30]);
    let mut session = run(&secrets, &nonces, b"m", 1);
    let commitments: Vec<NonceCommitment> = nonces
        .iter()
        .map(|r| NonceCommitment(CompressedPoint::mul_base(r)))
        .collect();
    let mut short = session.precommitments.clone();
    short.pop();
    let (party, _) = session.awaiting_precommitments.remove(0).receive_precommitments(short);
    assert_eq!(
        party.receive_commitments(commitments.clone()).err(),
        Some(MusigError::PrecommitmentMismatch { index: 2 })
    );
    let mut long = session.precommitments.clone();
    long.push(session.precommitments[0]);
    let (party, _) = session.awaiting_precommitments.remove(0).receive_precommitments(long);
    assert_eq!(
        party.receive_commitments(commitments.clone()).err(),
        Some(MusigError::PrecommitmentMismatch { index: 3 })
    );
}

#[test]
fn undecodable_nonce_point_is_refused() {
    let secrets = scalars(&[1, 2]);
    let pubkeys = keys_of(&secrets);
    let multikey = Multikey::new(pubkeys.clone()).unwrap();
    let transcript = seeded(b"m");
    let bad = NonceCommitment(CompressedPoint([0xff; 32]));
    let (party, own) = Party::with_nonce(
        &transcript,
        secrets[0],
        multikey,
        pubkeys,
        Scalar::from_u64(10),
    );
    // the peer precommits to bytes that encode no point, and reveals them
    let precommitments = vec![own, bad.precommit()];
    let (party, commitment) = party.receive_precommitments(precommitments);
    assert_eq!(
        party.receive_commitments(vec![commitment, bad]).err(),
        Some(MusigError::InvalidPoint)
    );
}

#[test]
fn invalid_share_is_refused_with_its_position() {
    let secrets = scalars(&[1, 2, 3, 4]);
    let nonces = scalars(&[10, 20, 30, 40]);
    for cheater in 0..4 {
        let mut session = run(&secrets, &nonces, b"m", 3);
        let mut shares = session.shares.clone();
        shares[cheater] = shares[cheater].add(&Scalar::from_u64(1));
        for party in std::mem::take(&mut session.awaiting_shares) {
            assert_eq!(
                party.receive_shares(shares.clone()).err(),
                Some(MusigError::InvalidShare { index: cheater })
            );
        }
    }
    // shares in the wrong order: the first wrong one is named
    let mut session = run(&secrets, &nonces, b"m", 3);
    let mut shares = session.shares.clone();
    shares.swap(2, 3);
    assert_eq!(
        session.awaiting_shares.remove(0).receive_shares(shares).err(),
        Some(MusigError::InvalidShare { index: 2 })
    );
}

#[test]
fn missing_and_surplus_shares_are_refused() {
    let secrets = scalars(&[1, 2, 3]);
    let nonces = scalars(&[10, 20, 30]);
    let mut session = run(&secrets, &nonces, b"m", 3);
    let mut short = session.shares.clone();
    short.pop();
    assert_eq!(
        session.awaiting_shares.remove(0).receive_shares(short).err(),
        Some(MusigError::InvalidShare { index: 2 })
    );
    let mut long = session.shares.clone();
    long.push(Scalar::from_u64(0));
    assert_eq!(
        session.awaiting_shares.remove(0).receive_shares(long).err(),
        Some(MusigError::InvalidShare { index: 3 })
    );
    assert_eq!(
        session.awaiting_shares.remove(0).receive_shares(Vec::new()).err(),
        Some(MusigError::InvalidShare { index: 0 })
    );
}

#[test]
fn undecodable_participant_key_is_refused_with_the_shares() {
    let secrets = scalars(&[1, 2]);
    let nonces = scalars(&[10, 20]);
    let honest = keys_of(&secrets);
    let multikey = Multikey::new(honest.clone()).unwrap();
    let transcript = seeded(b"m");
    let listed = vec![honest[0], VerificationKey(CompressedPoint([0xff; 32]))];
    let (party, first) =
        Party::with_nonce(&transcript, secrets[0], multikey.clone(), listed, nonces[0]);
    let (_, second) =
        Party::with_nonce(&transcript, secrets[1], multikey, honest, nonces[1]);
    let commitments: Vec<NonceCommitment> = nonces
        .iter()
        .map(|r| NonceCommitment(CompressedPoint::mul_base(r)))
        .collect();
    let (party, _) = party.receive_precommitments(vec![first, second]);
    let (party, share) = party.receive_commitments(commitments).unwrap();
    assert_eq!(
        party.receive_shares(vec![share, Scalar::from_u64(0)]).err(),
        Some(MusigError::InvalidPoint)
    );
}

#[test]
fn session_without_participants_assembles_the_empty_sums() {
    let multikey = Multikey::new(keys_of(&scalars(&[1]))).unwrap();
    let (party, _) = Party::with_nonce(
        &seeded(b"m"),
        Scalar::from_u64(1),
        multikey,
        Vec::new(),
        Scalar::from_u64(10),
    );
    let (party, _) = party.receive_precommitments(Vec::new());
    let (party, _) = party.receive_commitments(Vec::new()).unwrap();
    let signature = party.receive_shares(Vec::new()).unwrap();
    assert_eq!(signature.s, Scalar::from_u64(0));
    assert_eq!(signature.R, CompressedPoint::identity());
}

#[test]
fn worked_scenario_one_to_four() {
    let secrets = scalars(&[1, 2, 3, 4]);
    let nonces = scalars(&[1001, 1002, 1003, 1004]);
    let message = b"message to sign";
    let (signature, multikey) = sign(&secrets, &nonces, message);
    assert_eq!(
        multikey.aggregated_key().0.to_bytes(),
        [
            56, 92, 251, 79, 34, 221, 181, 222, 11, 112, 55, 45, 154, 242, 40, 250, 247, 1, 109,
            126, 150, 210, 181, 6, 117, 95, 44, 102, 38, 28, 144, 49,
        ]
    );
    assert_eq!(signature.verify(&seeded(message), multikey.aggregated_key()), Ok(()));
    // the same keys, nonces and message give the same signature
    let (again, _) = sign(&secrets, &nonces, message);
    assert_eq!(again, signature);

    // another private key for the last signer: another signature, while what the
    // other signers publish in the first two rounds stays as it was
    let changed = scalars(&[1, 2, 3, 5]);
    let (other, other_multikey) = sign(&changed, &nonces, message);
    assert!(other != signature);
    assert!(other.s != signature.s);
    assert!(other_multikey.aggregated_key() != multikey.aggregated_key());
    assert_eq!(other.verify(&seeded(message), other_multikey.aggregated_key()), Ok(()));
    let before = run(&secrets, &nonces, message, 2);
    let after = run(&changed, &nonces, message, 2);
    for i in 0..3 {
        assert_eq!(before.precommitments[i], after.precommitments[i]);
        assert_eq!(before.commitments[i], after.commitments[i]);
    }
}

#[test]
fn signature_wire_form_round_trip() {
    let secrets = scalars(&[1, 2, 3, 4]);
    let nonces = scalars(&[10, 20, 30, 40]);
    let (signature, multikey) = sign(&secrets, &nonces, b"wire");
    let bytes = signature.to_bytes();
    assert_eq!(&bytes[..32], &signature.s.to_bytes()[..]);
    assert_eq!(&bytes[32..], &signature.R.to_bytes()[..]);
    let read = Signature::from_bytes(&bytes).unwrap();
    assert_eq!(read, signature);
    assert_eq!(read.verify(&seeded(b"wire"), multikey.aggregated_key()), Ok(()));

    // a scalar part at or above the group order is no signature
    let mut overflow = bytes;
    overflow[31] = 0xff;
    assert_eq!(Signature::from_bytes(&overflow), None);
    // the nonce part is taken as it is and judged by verification
    let mut garbled = bytes;
    for b in garbled[32..].iter_mut() {
        *b = 0xff;
    }
    let read = Signature::from_bytes(&garbled).unwrap();
    assert_eq!(
        read.verify(&seeded(b"wire"), multikey.aggregated_key()),
        Err(MusigError::InvalidPoint)
    );
    let zero = Signature::from_bytes(&[0u8; 64]).unwrap();
    assert_eq!(zero.s, Scalar::from_u64(0));
    assert_eq!(zero.R, CompressedPoint::identity());
}
