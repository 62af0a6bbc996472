//! Elements of the Ristretto group, held in their canonical 32-byte encoding.
use crate::bytes::equal_bytes;
use crate::scalar::Scalar;
use vstd::prelude::*;

verus! {

/// Whether 32 bytes are the canonical encoding of a group element.
pub uninterp spec fn ristretto_decodes(bytes: Seq<u8>) -> bool;

/// The encoding of the sum of the two group elements that `p` and `q` encode.
pub uninterp spec fn ristretto_add(p: Seq<u8>, q: Seq<u8>) -> Seq<u8>;

/// The encoding of `k` times the group element that `p` encodes.
pub uninterp spec fn ristretto_mul(k: nat, p: Seq<u8>) -> Seq<u8>;

/// The encoding of the group's base point.
pub open spec fn basepoint_encoding() -> Seq<u8> {
    seq![
        0xe2u8, 0xf2, 0xae, 0x0a, 0x6a, 0xbc, 0x4e, 0x71, 0xa8, 0x84, 0xa9, 0x61, 0xc5, 0x00,
        0x51, 0x5f, 0x58, 0xe3, 0x0b, 0x6a, 0xa5, 0x82, 0xdd, 0x8d, 0xb6, 0xa6, 0x59, 0x45,
        0xe0, 0x8d, 0x2d, 0x76,
    ]
}

/// The encoding of the group's identity element: 32 zero bytes.
pub open spec fn identity_encoding() -> Seq<u8> {
    Seq::new(32, |i: int| 0u8)
}

/// The sum of the first `n` points of a list, added from the left onto the
/// identity.
pub open spec fn point_sum(points: Seq<Seq<u8>>, n: nat) -> Seq<u8>
    decreases n,
{
    if n == 0 {
        identity_encoding()
    } else {
        ristretto_add(point_sum(points, (n - 1) as nat), points[n - 1])
    }
}

/// Whether every entry of a list encodes a group element.
pub open spec fn all_decode(points: Seq<Seq<u8>>) -> bool {
    forall|i: int| 0 <= i < points.len() ==> ristretto_decodes(#[trigger] points[i])
}

/// The encoding of `k` times the base point.
pub open spec fn ristretto_mul_base(k: nat) -> Seq<u8> {
    ristretto_mul(k, basepoint_encoding())
}

/// 32 bytes that are meant to encode a group element. Whether they do is
/// settled where the point is used.
#[derive(Clone, Copy, Debug, PartialEq, Eq)]
pub struct CompressedPoint(pub [u8; 32]);

impl View for CompressedPoint {
    type V = Seq<u8>;

    open spec fn view(&self) -> Seq<u8> {
        self.0@
    }
}

impl CompressedPoint {
    /// The identity element of the group.
    pub fn identity() -> (r: CompressedPoint)
        ensures
            r@ == identity_encoding(),
            ristretto_decodes(r@),
    {
        dalek_identity()
    }

    /// The base point of the group.
    pub fn basepoint() -> (r: CompressedPoint)
        ensures
            r@ == basepoint_encoding(),
            ristretto_decodes(r@),
    {
        dalek_basepoint()
    }

    /// The point that a slice of 32 bytes holds; a slice of another length
    /// holds none.
    pub fn from_slice(bytes: &[u8]) -> (r: Option<CompressedPoint>)
        ensures
            r.is_some() == (bytes@.len() == 32),
            r matches Some(p) ==> p@ == bytes@,
    {
        if bytes.len() != 32 {
            return None;
        }
        let mut out = [0u8; 32];
        let mut i: usize = 0;
        while i < 32
            invariant
                i <= 32,
                bytes@.len() == 32,
                forall|j: int| 0 <= j < i ==> out@[j] == bytes@[j],
            decreases 32 - i,
        {
            out[i] = bytes[i];
            i += 1;
        }
        assert(out@ =~= bytes@);
        Some(CompressedPoint(out))
    }

    /// Whether the bytes encode a group element.
    pub fn is_valid(&self) -> (r: bool)
        ensures
            r == ristretto_decodes(self@),
    {
        dalek_decodes(self)
    }

    /// The bytes of the encoding.
    pub fn to_bytes(&self) -> (r: [u8; 32])
        ensures
            r@ == self@,
    {
        self.0
    }

    /// Whether two encodings are byte for byte the same. Encodings are
    /// canonical, so valid points are equal exactly if their encodings are.
    pub fn equals(&self, other: &CompressedPoint) -> (r: bool)
        ensures
            r == (self@ == other@),
    {
        equal_bytes(&self.0, &other.0)
    }

    /// The sum of two group elements, where both encodings are valid.
    pub fn add(&self, other: &CompressedPoint) -> (r: Option<CompressedPoint>)
        ensures
            r.is_some() == (ristretto_decodes(self@) && ristretto_decodes(other@)),
            r matches Some(sum) ==> sum@ == ristretto_add(self@, other@) && ristretto_decodes(sum@),
    {
        if self.is_valid() && other.is_valid() {
            Some(point_add(self, other))
        } else {
            None
        }
    }

    /// `k` times a group element, where the encoding is valid.
    pub fn mul(&self, k: &Scalar) -> (r: Option<CompressedPoint>)
        ensures
            r.is_some() == ristretto_decodes(self@),
            r matches Some(prod) ==> prod@ == ristretto_mul(k.value(), self@) && ristretto_decodes(
                prod@,
            ),
    {
        if self.is_valid() {
            Some(point_mul(k, self))
        } else {
            None
        }
    }

    /// `k` times the base point.
    pub fn mul_base(k: &Scalar) -> (r: CompressedPoint)
        ensures
            r@ == ristretto_mul_base(k.value()),
            ristretto_decodes(r@),
    {
        let g = CompressedPoint::basepoint();
        point_mul(k, &g)
    }
}

/// `RistrettoPoint::default()` of `curve25519_dalek`, compressed: the
/// identity element, whose encoding is 32 zero bytes and decodes.
#[verifier::external_body]
fn dalek_identity() -> (r: CompressedPoint)
    ensures
        r@ == identity_encoding(),
        ristretto_decodes(r@),
{
    CompressedPoint(curve25519_dalek::ristretto::RistrettoPoint::default().compress().to_bytes())
}

/// `curve25519_dalek::constants::RISTRETTO_BASEPOINT_COMPRESSED`: the
/// documented encoding of the Ristretto base point, which is a group element.
#[verifier::external_body]
fn dalek_basepoint() -> (r: CompressedPoint)
    ensures
        r@ == basepoint_encoding(),
        ristretto_decodes(r@),
{
    CompressedPoint(curve25519_dalek::constants::RISTRETTO_BASEPOINT_COMPRESSED.to_bytes())
}

/// `CompressedRistretto::decompress` of `curve25519_dalek`: `Some` exactly
/// for the canonical encodings of group elements.
#[verifier::external_body]
fn dalek_decodes(p: &CompressedPoint) -> (r: bool)
    ensures
        r == ristretto_decodes(p@),
{
    curve25519_dalek::ristretto::CompressedRistretto(p.0).decompress().is_some()
}

/// `RistrettoPoint + RistrettoPoint` of `curve25519_dalek`, between
/// `decompress` and `compress`: the group's addition, on encodings. What
/// `compress` gives decodes again.
#[verifier::external_body]
pub(crate) fn point_add(p: &CompressedPoint, q: &CompressedPoint) -> (r: CompressedPoint)
    requires
        ristretto_decodes(p@),
        ristretto_decodes(q@),
    ensures
        r@ == ristretto_add(p@, q@),
        ristretto_decodes(r@),
{
    let a = curve25519_dalek::ristretto::CompressedRistretto(p.0).decompress().unwrap();
    let b = curve25519_dalek::ristretto::CompressedRistretto(q.0).decompress().unwrap();
    CompressedPoint((a + b).compress().to_bytes())
}

/// `Scalar * RistrettoPoint` of `curve25519_dalek`, between `decompress` and
/// `compress`: scalar multiplication in the group, on encodings. What
/// `compress` gives decodes again.
#[verifier::external_body]
pub(crate) fn point_mul(k: &Scalar, p: &CompressedPoint) -> (r: CompressedPoint)
    requires
        ristretto_decodes(p@),
    ensures
        r@ == ristretto_mul(k.value(), p@),
        ristretto_decodes(r@),
{
    let s = curve25519_dalek::scalar::Scalar::from_bytes_mod_order(k.to_bytes());
    let a = curve25519_dalek::ristretto::CompressedRistretto(p.0).decompress().unwrap();
    CompressedPoint((s * a).compress().to_bytes())
}

} // verus!
