//! What holds of key aggregation and of the signing protocol as a whole.
use crate::multikey::{aggregate, binding_transcript, coefficient, weighted_keys, Multikey};
use crate::point::{point_sum, ristretto_mul, ristretto_mul_base};
use crate::scalar::{group_order, le_value, lemma_le_value_injective, Scalar};
use crate::signature::Signature;
use crate::signer::{all_open, first_reveal_failure, opens, reveal_fails_at, PartyView};
use vstd::prelude::*;

verus! {

/// Aggregation is a function of the ordered key list: two key sets that hold
/// the same keys in the same order hold the same aggregated key.
pub proof fn law_aggregated_key_is_determined(first: Multikey, second: Multikey)
    requires
        first.valid(),
        second.valid(),
        first@ == second@,
    ensures
        first.held_key() == second.held_key(),
        first.held_key() == aggregate(first@),
{
    crate::multikey::lemma_valid_multikey(first);
    crate::multikey::lemma_valid_multikey(second);
}

/// The aggregated key of the keys that belong to private keys `x_1 .. x_n` is
/// the sum of the `a_i·(x_i·G)`, where each `a_i` is the coefficient of the
/// `i`-th key within the list of the public keys.
pub proof fn law_aggregate_of_private_keys(private_keys: Seq<nat>)
    ensures
        ({
            let keys = Seq::new(private_keys.len(), |i: int| ristretto_mul_base(private_keys[i]));
            aggregate(keys) == point_sum(
                Seq::new(
                    private_keys.len(),
                    |i: int|
                        ristretto_mul(
                            coefficient(keys, ristretto_mul_base(private_keys[i])),
                            ristretto_mul_base(private_keys[i]),
                        ),
                ),
                private_keys.len(),
            )
        }),
{
    let keys = Seq::new(private_keys.len(), |i: int| ristretto_mul_base(private_keys[i]));
    let terms = Seq::new(
        private_keys.len(),
        |i: int|
            ristretto_mul(
                coefficient(keys, ristretto_mul_base(private_keys[i])),
                ristretto_mul_base(private_keys[i]),
            ),
    );
    assert(weighted_keys(keys) =~= terms);
}

/// The order of the keys takes part in what binds them: key lists that
/// differ, be it only in their order, have different binding transcripts.
pub proof fn law_binding_tells_key_lists_apart(first: Seq<Seq<u8>>, second: Seq<Seq<u8>>)
    requires
        first != second,
    ensures
        binding_transcript(first) != binding_transcript(second),
{
    let a = binding_transcript(first).messages;
    let b = binding_transcript(second).messages;
    if a == b {
        assert(a.len() == first.len() + 1);
        assert(b.len() == second.len() + 1);
        assert forall|i: int| 0 <= i < first.len() implies first[i] == second[i] by {
            assert(a[i + 1] == ("X"@, first[i]));
            assert(b[i + 1] == ("X"@, second[i]));
        }
        assert(first =~= second);
    }
}

/// All parties assemble one signature: parties that agree on the transcript,
/// the key set and the participants' keys hold the same state once they have
/// the same nonce points, and signatures assembled from the same state and
/// the same shares are equal.
pub proof fn law_parties_assemble_one_signature(
    first: PartyView,
    second: PartyView,
    commitments: Seq<Seq<u8>>,
    shares: Seq<nat>,
    first_signature: Signature,
    second_signature: Signature,
)
    requires
        first.transcript == second.transcript,
        first.multikey == second.multikey,
        first.public_keys == second.public_keys,
        first_signature.s.value() == first.awaiting_shares(commitments).signature_scalar(shares),
        first_signature.R@ == first.awaiting_shares(commitments).signature_nonce(),
        second_signature.s.value() == second.awaiting_shares(commitments).signature_scalar(shares),
        second_signature.R@ == second.awaiting_shares(commitments).signature_nonce(),
    ensures
        first.awaiting_shares(commitments) == second.awaiting_shares(commitments),
        first_signature.s.encoding() == second_signature.s.encoding(),
        first_signature.R@ == second_signature.R@,
{
    Scalar::lemma_encoding_len(first_signature.s);
    Scalar::lemma_encoding_len(second_signature.s);
    lemma_le_value_injective(first_signature.s.encoding(), second_signature.s.encoding());
}

/// The wire form of a signature is faithful: the bytes written for a
/// signature are read back as a signature, and signatures with the same bytes
/// have the same scalar and the same nonce point.
pub proof fn law_wire_form_is_faithful(written: Signature, read: Signature)
    requires
        written.s.canonical(),
        read.encoding() == written.encoding(),
    ensures
        le_value(written.encoding().subrange(0, 32)) < group_order(),
        read.s.encoding() == written.s.encoding(),
        read.R@ == written.R@,
{
    Scalar::lemma_encoding_len(written.s);
    Scalar::lemma_encoding_len(read.s);
    let bytes = written.encoding();
    assert(bytes.subrange(0, 32) =~= written.s.encoding());
    assert(bytes.subrange(0, 32) =~= read.s.encoding());
    assert(bytes.subrange(32, 64) =~= written.R@);
    assert(bytes.subrange(32, 64) =~= read.R@);
}

/// A nonce point that does not open its precommitment stops the reveal round:
/// the round fails, at that participant's position or before it.
pub proof fn law_unopened_precommitment_is_refused(
    precommitments: Seq<Seq<u8>>,
    commitments: Seq<Seq<u8>>,
    n: nat,
    i: int,
)
    requires
        0 <= i < n,
        !opens(precommitments, commitments, i),
    ensures
        !all_open(precommitments, commitments, n),
        exists|index: int|
            index <= i && #[trigger] first_reveal_failure(precommitments, commitments, n, index),
{
    assert(reveal_fails_at(precommitments, commitments, n, i));
    let index = first_failure_up_to(precommitments, commitments, n, i);
    assert(first_reveal_failure(precommitments, commitments, n, index));
}

/// The first position up to `i` at which the reveal round fails.
proof fn first_failure_up_to(
    precommitments: Seq<Seq<u8>>,
    commitments: Seq<Seq<u8>>,
    n: nat,
    i: int,
) -> (index: int)
    requires
        0 <= i <= n,
        reveal_fails_at(precommitments, commitments, n, i),
    ensures
        index <= i,
        first_reveal_failure(precommitments, commitments, n, index),
    decreases i,
{
    if exists|j: int| 0 <= j < i && reveal_fails_at(precommitments, commitments, n, j) {
        let j = choose|j: int| 0 <= j < i && reveal_fails_at(precommitments, commitments, n, j);
        first_failure_up_to(precommitments, commitments, n, j)
    } else {
        i
    }
}

} // verus!
