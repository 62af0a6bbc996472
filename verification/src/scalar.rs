//! Scalars: integers modulo the order of the Ristretto group.
use crate::bytes::equal_bytes;
use vstd::prelude::*;

verus! {

/// The prime order of the Ristretto group,
/// `2^252 + 27742317777372353535851937790883648493`.
pub open spec fn group_order() -> nat {
    0x1000000000000000000000000000000014def9dea2f79cd65812631a5cf5d3ednat
}

/// The integer that a byte string encodes in little-endian order.
pub open spec fn le_value(bytes: Seq<u8>) -> nat
    decreases bytes.len(),
{
    if bytes.len() == 0 {
        0
    } else {
        bytes[0] as nat + 256 * le_value(bytes.drop_first())
    }
}

/// An element of the integers modulo the group order, held as the 32-byte
/// little-endian encoding of its canonical representative.
#[derive(Clone, Copy, Debug, PartialEq, Eq)]
pub struct Scalar {
    bytes: [u8; 32],
}

impl Scalar {
    /// The 32 bytes that encode this scalar.
    pub closed spec fn encoding(&self) -> Seq<u8> {
        self.bytes@
    }

    /// The integer this scalar stands for.
    pub open spec fn value(&self) -> nat {
        le_value(self.encoding())
    }

    /// Every scalar is reduced modulo the group order.
    #[verifier::type_invariant]
    pub open spec fn canonical(&self) -> bool {
        self.value() < group_order()
    }

    /// An encoding has 32 bytes.
    pub proof fn lemma_encoding_len(s: Scalar)
        ensures
            s.encoding().len() == 32,
    {
    }

    /// The scalar with the given integer value.
    pub fn from_u64(x: u64) -> (r: Scalar)
        ensures
            r.value() == x,
    {
        dalek_scalar_from_u64(x)
    }

    /// The scalar that 32 bytes encode, where they are the canonical encoding
    /// of one: where the integer they hold is below the group order.
    pub fn from_canonical_bytes(bytes: [u8; 32]) -> (r: Option<Scalar>)
        ensures
            r.is_some() == (le_value(bytes@) < group_order()),
            r matches Some(s) ==> s.encoding() == bytes@,
    {
        dalek_scalar_from_canonical_bytes(bytes)
    }

    /// The scalar that a 512-bit little-endian integer reduces to.
    pub fn from_bytes_mod_order_wide(input: &[u8; 64]) -> (r: Scalar)
        ensures
            r.value() == le_value(input@) % group_order(),
    {
        dalek_scalar_from_wide(input)
    }

    /// A scalar drawn from the operating system's random source.
    /// Nothing is known of it but that it is a scalar.
    pub fn random() -> (r: Scalar)
        ensures
            r.canonical(),
    {
        dalek_scalar_random()
    }

    /// The canonical 32-byte encoding.
    pub fn to_bytes(&self) -> (r: [u8; 32])
        ensures
            r@ == self.encoding(),
    {
        self.bytes
    }

    /// The sum of two scalars modulo the group order.
    pub fn add(&self, other: &Scalar) -> (r: Scalar)
        ensures
            r.value() == (self.value() + other.value()) % group_order(),
    {
        dalek_scalar_add(self, other)
    }

    /// The product of two scalars modulo the group order.
    pub fn mul(&self, other: &Scalar) -> (r: Scalar)
        ensures
            r.value() == (self.value() * other.value()) % group_order(),
    {
        dalek_scalar_mul(self, other)
    }

    /// Whether two scalars are the same element.
    pub fn equals(&self, other: &Scalar) -> (r: bool)
        ensures
            r == (self.value() == other.value()),
            r == (self.encoding() == other.encoding()),
    {
        proof {
            if self.value() == other.value() {
                lemma_le_value_injective(self.bytes@, other.bytes@);
            }
        }
        equal_bytes(&self.bytes, &other.bytes)
    }
}

/// Byte strings of one length that encode the same integer are equal.
pub proof fn lemma_le_value_injective(a: Seq<u8>, b: Seq<u8>)
    requires
        a.len() == b.len(),
        le_value(a) == le_value(b),
    ensures
        a == b,
    decreases a.len(),
{
    if a.len() > 0 {
        let x = le_value(a.drop_first());
        let y = le_value(b.drop_first());
        assert(a[0] as nat + 256 * x == b[0] as nat + 256 * y);
        assert(x == y && a[0] == b[0]);
        lemma_le_value_injective(a.drop_first(), b.drop_first());
        assert(a =~= seq![a[0]] + a.drop_first());
        assert(b =~= seq![b[0]] + b.drop_first());
    } else {
        assert(a =~= b);
    }
}

/// `curve25519_dalek::scalar::Scalar::from(u64)`: the scalar whose
/// little-endian encoding is that of `x`, padded with zero bytes.
#[verifier::external_body]
fn dalek_scalar_from_u64(x: u64) -> (r: Scalar)
    ensures
        r.value() == x,
{
    Scalar { bytes: curve25519_dalek::scalar::Scalar::from(x).to_bytes() }
}

/// `curve25519_dalek::scalar::Scalar::from_canonical_bytes`: accepts exactly
/// the encodings of integers below the group order, and keeps the bytes.
#[verifier::external_body]
fn dalek_scalar_from_canonical_bytes(bytes: [u8; 32]) -> (r: Option<Scalar>)
    ensures
        r.is_some() == (le_value(bytes@) < group_order()),
        r matches Some(s) ==> s.encoding() == bytes@,
{
    match curve25519_dalek::scalar::Scalar::from_canonical_bytes(bytes).into() {
        Some::<curve25519_dalek::scalar::Scalar>(s) => Some(Scalar { bytes: s.to_bytes() }),
        None => None,
    }
}

/// `curve25519_dalek::scalar::Scalar::from_bytes_mod_order_wide`: reduces a
/// 512-bit little-endian integer modulo the group order.
#[verifier::external_body]
fn dalek_scalar_from_wide(input: &[u8; 64]) -> (r: Scalar)
    ensures
        r.value() == le_value(input@) % group_order(),
{
    Scalar { bytes: curve25519_dalek::scalar::Scalar::from_bytes_mod_order_wide(input).to_bytes() }
}

/// `curve25519_dalek::scalar::Scalar::random` on `rand::rngs::OsRng`: some
/// scalar; which one is not determined.
#[verifier::external_body]
fn dalek_scalar_random() -> (r: Scalar)
    ensures
        r.canonical(),
{
    Scalar { bytes: curve25519_dalek::scalar::Scalar::random(&mut rand::rngs::OsRng).to_bytes() }
}

/// `Scalar * Scalar` of `curve25519_dalek`: multiplication modulo the group
/// order.
#[verifier::external_body]
fn dalek_scalar_mul(a: &Scalar, b: &Scalar) -> (r: Scalar)
    ensures
        r.value() == (a.value() * b.value()) % group_order(),
{
    let x = curve25519_dalek::scalar::Scalar::from_bytes_mod_order(a.bytes);
    let y = curve25519_dalek::scalar::Scalar::from_bytes_mod_order(b.bytes);
    Scalar { bytes: (x * y).to_bytes() }
}

/// `Scalar + Scalar` of `curve25519_dalek`: addition modulo the group order.
#[verifier::external_body]
fn dalek_scalar_add(a: &Scalar, b: &Scalar) -> (r: Scalar)
    ensures
        r.value() == (a.value() + b.value()) % group_order(),
{
    let x = curve25519_dalek::scalar::Scalar::from_bytes_mod_order(a.bytes);
    let y = curve25519_dalek::scalar::Scalar::from_bytes_mod_order(b.bytes);
    Scalar { bytes: (x + y).to_bytes() }
}

} // verus!
