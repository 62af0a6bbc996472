//! MuSig: multi-party Schnorr signatures over the Ristretto group.
//!
//! N signers aggregate their public keys into one verification key and run a
//! three-round protocol that yields a single signature for that key.
//! Group arithmetic and transcript hashing are delegated to `curve25519-dalek`
//! and `merlin`; everything built on top of them is stated and verified here.
pub mod algebra;
pub mod bytes;
pub mod errors;
pub mod key;
pub mod laws;
pub mod multikey;
pub mod point;
pub mod scalar;
pub mod signature;
pub mod signer;
pub mod transcript;
