//! Cryptographic primitives used by the library, each relied on from an
//! outside crate. Their results are named by spec functions without a body:
//! they depend on the arguments alone.
use vstd::prelude::*;

use ed25519_dalek::Signer;
use ed25519_dalek::Verifier;
use sha2::Digest;

verus! {

/// The public key that Ed25519 derives from a 32-byte secret key.
pub uninterp spec fn ed25519_public_of(secret: Seq<u8>) -> Seq<u8>;

/// The (deterministic) Ed25519 signature of `message` under a 32-byte secret key.
pub uninterp spec fn ed25519_signature_of(secret: Seq<u8>, message: Seq<u8>) -> Seq<u8>;

/// Whether Ed25519 verification accepts `signature` over `message` for `public`.
pub uninterp spec fn ed25519_accepts(public: Seq<u8>, message: Seq<u8>, signature: Seq<u8>) -> bool;

/// The SHA-256 digest of `data`.
pub uninterp spec fn sha256_of(data: Seq<u8>) -> Seq<u8>;

/// Whether 32 bytes are the compressed form of a point on the Ed25519 curve.
pub uninterp spec fn is_curve_point(bytes: Seq<u8>) -> bool;

/// Relies on ed25519_dalek::SigningKey::from_bytes and verifying_key: the
/// public key of a secret key, as 32 bytes.
#[verifier::external_body]
pub(crate) fn public_key_of(secret: &[u8; 32]) -> (r: [u8; 32])
    ensures
        r@ == ed25519_public_of(secret@),
{
    ed25519_dalek::SigningKey::from_bytes(secret).verifying_key().to_bytes()
}

/// Relies on ed25519_dalek's Signer impl for SigningKey (RFC 8032 signing,
/// which is deterministic): the 64-byte signature of `message`.
#[verifier::external_body]
pub(crate) fn sign_message(secret: &[u8; 32], message: &Vec<u8>) -> (r: [u8; 64])
    ensures
        r@ == ed25519_signature_of(secret@, message@),
{
    ed25519_dalek::SigningKey::from_bytes(secret).sign(message.as_slice()).to_bytes()
}

/// Relies on ed25519_dalek's VerifyingKey::from_bytes and its Verifier impl:
/// false where the key bytes are not a valid key or the signature is rejected.
#[verifier::external_body]
pub(crate) fn signature_accepted(public: &[u8; 32], message: &Vec<u8>, signature: &[u8; 64]) -> (r: bool)
    ensures
        r == ed25519_accepts(public@, message@, signature@),
{
    match ed25519_dalek::VerifyingKey::from_bytes(public) {
        Ok(key) => key.verify(message.as_slice(), &ed25519_dalek::Signature::from_bytes(signature)).is_ok(),
        Err(_) => false,
    }
}

/// Relies on sha2::Sha256::digest: the 32-byte SHA-256 digest of `data`.
#[verifier::external_body]
pub(crate) fn sha256(data: &Vec<u8>) -> (r: [u8; 32])
    ensures
        r@ == sha256_of(data@),
{
    sha2::Sha256::digest(data.as_slice()).into()
}

/// Relies on curve25519_dalek::edwards::CompressedEdwardsY::decompress: true
/// where the bytes decompress to a curve point.
#[verifier::external_body]
pub(crate) fn on_curve(bytes: &[u8; 32]) -> (r: bool)
    ensures
        r == is_curve_point(bytes@),
{
    curve25519_dalek::edwards::CompressedEdwardsY(*bytes).decompress().is_some()
}

} // verus!
