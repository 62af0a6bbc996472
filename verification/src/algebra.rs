//! Why the protocol yields signatures that verify: the algebra of the three
//! rounds, carried out over the laws of a group.
//!
//! The group operations themselves are computed elsewhere and taken as given
//! here. What is proved is that the protocol is right for every group: if
//! the operations obey the laws collected in `ristretto_is_group`, then an
//! honest party's share satisfies its equation, and shares that satisfy theirs
//! add up to a signature that verification accepts.
use crate::multikey::{aggregate, coefficient, weighted_keys};
use crate::point::{
    all_decode, basepoint_encoding, identity_encoding, point_sum, ristretto_add,
    ristretto_decodes, ristretto_mul, ristretto_mul_base,
};
use crate::scalar::group_order;
use crate::signature::{schnorr_equation, verification};
use crate::signer::{sum, PartyView, SharesView};
use vstd::arithmetic::div_mod::{
    lemma_add_mod_noop, lemma_add_mod_noop_right, lemma_mul_mod_noop_left,
};
use vstd::prelude::*;

verus! {

/// The laws of a commutative group of the order of the scalars, on which the
/// scalars act: the encodings that decode are closed under addition and
/// under multiplication by a scalar; addition is associative and commutative
/// with the identity as its neutral element; and multiplication by scalars
/// is compatible with the arithmetic of scalars and distributes over sums.
#[verifier::opaque]
pub open spec fn ristretto_is_group() -> bool {
    &&& ristretto_decodes(identity_encoding())
    &&& ristretto_decodes(basepoint_encoding())
    &&& forall|p: Seq<u8>, q: Seq<u8>|
        ristretto_decodes(p) && ristretto_decodes(q) ==> ristretto_decodes(
            #[trigger] ristretto_add(p, q),
        )
    &&& forall|k: nat, p: Seq<u8>|
        ristretto_decodes(p) ==> ristretto_decodes(#[trigger] ristretto_mul(k, p))
    &&& forall|p: Seq<u8>|
        ristretto_decodes(p) ==> #[trigger] ristretto_add(identity_encoding(), p) == p
    &&& forall|p: Seq<u8>, q: Seq<u8>|
        ristretto_decodes(p) && ristretto_decodes(q) ==> #[trigger] ristretto_add(p, q)
            == ristretto_add(q, p)
    &&& forall|p: Seq<u8>, q: Seq<u8>, r: Seq<u8>|
        ristretto_decodes(p) && ristretto_decodes(q) && ristretto_decodes(r)
            ==> #[trigger] ristretto_add(ristretto_add(p, q), r) == ristretto_add(
            p,
            ristretto_add(q, r),
        )
    &&& forall|k: nat| #[trigger] ristretto_mul(k, identity_encoding()) == identity_encoding()
    &&& forall|p: Seq<u8>|
        ristretto_decodes(p) ==> #[trigger] ristretto_mul(0, p) == identity_encoding()
    &&& forall|j: nat, k: nat, p: Seq<u8>|
        ristretto_decodes(p) ==> #[trigger] ristretto_add(ristretto_mul(j, p), ristretto_mul(k, p))
            == ristretto_mul((j + k) % group_order(), p)
    &&& forall|j: nat, k: nat, p: Seq<u8>|
        ristretto_decodes(p) ==> #[trigger] ristretto_mul(j, ristretto_mul(k, p)) == ristretto_mul(
            (j * k) % group_order(),
            p,
        )
    &&& forall|k: nat, p: Seq<u8>, q: Seq<u8>|
        ristretto_decodes(p) && ristretto_decodes(q) ==> #[trigger] ristretto_mul(
            k,
            ristretto_add(p, q),
        ) == ristretto_add(ristretto_mul(k, p), ristretto_mul(k, q))
}

proof fn sum_decodes(p: Seq<u8>, q: Seq<u8>)
    requires
        ristretto_is_group(),
        ristretto_decodes(p),
        ristretto_decodes(q),
    ensures
        ristretto_decodes(ristretto_add(p, q)),
{
    reveal(ristretto_is_group);
}

proof fn multiple_decodes(k: nat, p: Seq<u8>)
    requires
        ristretto_is_group(),
        ristretto_decodes(p),
    ensures
        ristretto_decodes(ristretto_mul(k, p)),
{
    reveal(ristretto_is_group);
}

proof fn constants_decode()
    requires
        ristretto_is_group(),
    ensures
        ristretto_decodes(identity_encoding()),
        ristretto_decodes(basepoint_encoding()),
{
    reveal(ristretto_is_group);
}

proof fn identity_is_neutral(p: Seq<u8>)
    requires
        ristretto_is_group(),
        ristretto_decodes(p),
    ensures
        ristretto_add(identity_encoding(), p) == p,
{
    reveal(ristretto_is_group);
}

proof fn addition_commutes(p: Seq<u8>, q: Seq<u8>)
    requires
        ristretto_is_group(),
        ristretto_decodes(p),
        ristretto_decodes(q),
    ensures
        ristretto_add(p, q) == ristretto_add(q, p),
{
    reveal(ristretto_is_group);
}

proof fn addition_associates(p: Seq<u8>, q: Seq<u8>, r: Seq<u8>)
    requires
        ristretto_is_group(),
        ristretto_decodes(p),
        ristretto_decodes(q),
        ristretto_decodes(r),
    ensures
        ristretto_add(ristretto_add(p, q), r) == ristretto_add(p, ristretto_add(q, r)),
{
    reveal(ristretto_is_group);
}

proof fn multiple_of_identity(k: nat)
    requires
        ristretto_is_group(),
    ensures
        ristretto_mul(k, identity_encoding()) == identity_encoding(),
{
    reveal(ristretto_is_group);
}

proof fn zero_multiple(p: Seq<u8>)
    requires
        ristretto_is_group(),
        ristretto_decodes(p),
    ensures
        ristretto_mul(0, p) == identity_encoding(),
{
    reveal(ristretto_is_group);
}

proof fn scalars_add(j: nat, k: nat, p: Seq<u8>)
    requires
        ristretto_is_group(),
        ristretto_decodes(p),
    ensures
        ristretto_add(ristretto_mul(j, p), ristretto_mul(k, p)) == ristretto_mul(
            (j + k) % group_order(),
            p,
        ),
{
    reveal(ristretto_is_group);
}

proof fn scalars_multiply(j: nat, k: nat, p: Seq<u8>)
    requires
        ristretto_is_group(),
        ristretto_decodes(p),
    ensures
        ristretto_mul(j, ristretto_mul(k, p)) == ristretto_mul((j * k) % group_order(), p),
{
    reveal(ristretto_is_group);
}

proof fn multiple_of_sum(k: nat, p: Seq<u8>, q: Seq<u8>)
    requires
        ristretto_is_group(),
        ristretto_decodes(p),
        ristretto_decodes(q),
    ensures
        ristretto_mul(k, ristretto_add(p, q)) == ristretto_add(
            ristretto_mul(k, p),
            ristretto_mul(k, q),
        ),
{
    reveal(ristretto_is_group);
}

/// `(a + b) + (c + d) == (a + c) + (b + d)`.
proof fn sums_interchange(a: Seq<u8>, b: Seq<u8>, c: Seq<u8>, d: Seq<u8>)
    requires
        ristretto_is_group(),
        ristretto_decodes(a),
        ristretto_decodes(b),
        ristretto_decodes(c),
        ristretto_decodes(d),
    ensures
        ristretto_add(ristretto_add(a, b), ristretto_add(c, d)) == ristretto_add(
            ristretto_add(a, c),
            ristretto_add(b, d),
        ),
{
    let cd = ristretto_add(c, d);
    let bd = ristretto_add(b, d);
    sum_decodes(c, d);
    sum_decodes(b, d);
    sum_decodes(b, c);
    sum_decodes(c, b);
    addition_associates(a, b, cd);
    addition_associates(b, c, d);
    addition_commutes(b, c);
    addition_associates(c, b, d);
    addition_associates(a, c, bd);
}

/// A sum of points that decode decodes.
proof fn point_sum_decodes(points: Seq<Seq<u8>>, n: nat)
    requires
        ristretto_is_group(),
        all_decode(points),
        n <= points.len(),
    ensures
        ristretto_decodes(point_sum(points, n)),
    decreases n,
{
    if n == 0 {
        constants_decode();
    } else {
        point_sum_decodes(points, (n - 1) as nat);
        sum_decodes(point_sum(points, (n - 1) as nat), points[n - 1]);
    }
}

/// Keys that decode stay so when multiplied by their coefficients.
proof fn weighted_keys_decode(keys: Seq<Seq<u8>>)
    requires
        ristretto_is_group(),
        all_decode(keys),
    ensures
        all_decode(weighted_keys(keys)),
{
    assert forall|i: int| 0 <= i < keys.len() implies ristretto_decodes(
        #[trigger] weighted_keys(keys)[i],
    ) by {
        multiple_decodes(coefficient(keys, keys[i]), keys[i]);
    }
}

/// An honest party's share satisfies its equation. In a group, the share
/// `r + c·a·x` of a party whose nonce point `r·G` and key `x·G` stand at
/// position `i` satisfies `s·G == R_i + (c·a)·X_i`.
pub proof fn theorem_honest_share_holds(
    party: PartyView,
    commitments: Seq<Seq<u8>>,
    shares: Seq<nat>,
    i: int,
)
    requires
        ristretto_is_group(),
        0 <= i < shares.len(),
        i < commitments.len(),
        i < party.public_keys.len(),
        party.public_keys[i] == party.own_key(),
        commitments[i] == party.nonce_point(),
        shares[i] == party.share(commitments),
    ensures
        party.awaiting_shares(commitments).share_holds(shares, i),
{
    let l = group_order();
    let g = basepoint_encoding();
    let c = party.challenge(commitments);
    let a = coefficient(party.multikey, party.own_key());
    let x = party.private_key;
    let r = party.nonce;
    let ca = (c * a) % l;
    let cax = (ca * x) % l;
    constants_decode();
    scalars_multiply(ca, x, g);
    scalars_add(r, cax, g);
    assert((r + cax) % l == (r + c * a * x) % l) by {
        lemma_mul_mod_noop_left((c * a) as int, x as int, l as int);
        lemma_add_mod_noop_right(r as int, (c * a * x) as int, l as int);
    }
    assert(ristretto_mul_base(shares[i]) == ristretto_add(
        ristretto_mul_base(r),
        ristretto_mul(ca, ristretto_mul_base(x)),
    ));
}

/// The equation that the first `k` shares, nonce points and weighted keys
/// satisfy together.
spec fn partial_equation(
    c: nat,
    commitments: Seq<Seq<u8>>,
    weighted: Seq<Seq<u8>>,
    shares: Seq<nat>,
    k: nat,
) -> bool {
    ristretto_mul_base(sum(shares, k) % group_order()) == ristretto_add(
        point_sum(commitments, k),
        ristretto_mul(c, point_sum(weighted, k)),
    )
}

proof fn partial_equation_holds(view: SharesView, shares: Seq<nat>, k: nat)
    requires
        ristretto_is_group(),
        view.public_keys == view.multikey,
        view.commitments.len() == view.participants(),
        all_decode(view.public_keys),
        all_decode(view.commitments),
        view.all_shares_hold(shares),
        k <= view.participants(),
    ensures
        partial_equation(view.challenge, view.commitments, weighted_keys(view.multikey), shares, k),
    decreases k,
{
    let l = group_order();
    let g = basepoint_encoding();
    let c = view.challenge;
    let keys = view.multikey;
    let weighted = weighted_keys(keys);
    constants_decode();
    weighted_keys_decode(keys);
    if k == 0 {
        zero_multiple(g);
        multiple_of_identity(c);
        identity_is_neutral(identity_encoding());
        assert(sum(shares, 0) % l == 0);
    } else {
        let j = (k - 1) as nat;
        partial_equation_holds(view, shares, j);
        assert(!view.share_fails_at(shares, j as int));
        assert(view.share_holds(shares, j as int));
        let before = sum(shares, j) % l;
        let s = shares[j as int];
        let nonces = point_sum(view.commitments, j);
        let keysum = point_sum(weighted, j);
        let nonce = view.commitments[j as int];
        let key = keys[j as int];
        let a = coefficient(keys, key);
        assert(ristretto_decodes(nonce));
        assert(ristretto_decodes(key));
        assert(weighted[j as int] == ristretto_mul(a, key));
        assert(ristretto_decodes(weighted[j as int]));
        point_sum_decodes(view.commitments, j);
        point_sum_decodes(weighted, j);
        multiple_decodes(c, keysum);
        multiple_decodes(c, weighted[j as int]);
        // s·G splits along the sum of the shares
        scalars_add(before, s, g);
        assert((before + s) % l == sum(shares, k) % l) by {
            lemma_add_mod_noop(sum(shares, j) as int, s as int, l as int);
            assert((sum(shares, j) % l + s % l) % l == (before + s) % l) by {
                lemma_add_mod_noop_right(before as int, s as int, l as int);
            }
        }
        // the share's own equation, with (c·a)·X read as c·(a·X)
        scalars_multiply(c, a, key);
        // regroup and pull c out of the sum of the weighted keys
        sums_interchange(
            nonces,
            ristretto_mul(c, keysum),
            nonce,
            ristretto_mul(c, weighted[j as int]),
        );
        multiple_of_sum(c, keysum, weighted[j as int]);
    }
}

/// Shares that satisfy their equations add up to a signature that verifies. In a
/// group, where the participants' keys are those of the key set and all
/// decode, and there is one share per participant that satisfies its
/// equation, the sum of the shares with the sum of the nonce points is
/// accepted for the aggregated key on the party's transcript.
pub proof fn theorem_assembled_signature_verifies(
    party: PartyView,
    commitments: Seq<Seq<u8>>,
    shares: Seq<nat>,
)
    requires
        ristretto_is_group(),
        party.public_keys == party.multikey,
        commitments.len() == party.participants(),
        all_decode(party.public_keys),
        all_decode(commitments),
        party.awaiting_shares(commitments).all_shares_hold(shares),
    ensures
        verification(
            party.transcript,
            party.awaiting_shares(commitments).signature_scalar(shares),
            party.awaiting_shares(commitments).signature_nonce(),
            aggregate(party.multikey),
        ) == Ok::<(), crate::errors::MusigError>(()),
{
    let view = party.awaiting_shares(commitments);
    let n = view.participants();
    assert(!view.share_fails_at(shares, n as int));
    assert(shares.len() == n);
    partial_equation_holds(view, shares, n);
    weighted_keys_decode(party.multikey);
    point_sum_decodes(weighted_keys(party.multikey), n);
    point_sum_decodes(commitments, n);
    assert(schnorr_equation(
        view.signature_scalar(shares),
        view.signature_nonce(),
        view.challenge,
        aggregate(party.multikey),
    ));
}

} // verus!
