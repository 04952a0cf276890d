//! The calls into the outside crates that the library's logic makes: SHA-512 (`sha2`), the
//! clock (`chrono`), randomness (`rand`) and Ed25519 signatures (`ed25519_dalek`).

use vstd::prelude::*;

verus! {

/// The SHA-512 digest of a byte string.
pub uninterp spec fn sha512(data: Seq<u8>) -> Seq<u8>;

/// `<sha2::Sha512 as sha2::Digest>::digest`: the 64 bytes of the SHA-512 digest of `data`.
#[verifier::external_body]
pub(crate) fn sha512_digest(data: &[u8]) -> (r: [u8; 64])
    ensures
        r@ == sha512(data@),
{
    let digest = <sha2::Sha512 as sha2::Digest>::digest(data);
    let mut r = [0u8; 64];
    r.copy_from_slice(digest.as_slice());
    r
}

/// `chrono::Utc::now().timestamp_micros()`: the current time in microseconds since the UNIX
/// epoch. Nothing is stated of the value: it is read from the system clock.
#[verifier::external_body]
pub(crate) fn now_timestamp_micros() -> (r: i64) {
    chrono::Utc::now().timestamp_micros()
}

/// `rand::rngs::OsRng` (through `rand::TryRngCore::unwrap_err` and `rand::RngCore::fill_bytes`):
/// 32 bytes from the operating system's random source, the secret of a new Ed25519 key, as
/// `ed25519_dalek::SigningKey::generate` takes it. Nothing is stated of the bytes: they are
/// random.
#[verifier::external_body]
pub(crate) fn random_secret_key() -> (r: [u8; 32]) {
    let mut secret = [0u8; 32];
    rand::RngCore::fill_bytes(&mut rand::TryRngCore::unwrap_err(rand::rngs::OsRng), &mut secret);
    secret
}

/// The Ed25519 public key (compressed point) of a secret key.
pub uninterp spec fn ed25519_public_key(secret: Seq<u8>) -> Seq<u8>;

/// The Ed25519 signature of `message` under a secret key.
pub uninterp spec fn ed25519_signature(secret: Seq<u8>, message: Seq<u8>) -> Seq<u8>;

/// Whether 32 bytes decode to an Ed25519 public key (a point of the curve).
pub uninterp spec fn ed25519_key_decodes(public: Seq<u8>) -> bool;

/// Whether `signature` is a valid Ed25519 signature of `message` under the public key
/// `public` (false where `public` does not decode).
pub uninterp spec fn ed25519_verifies(public: Seq<u8>, signature: Seq<u8>, message: Seq<u8>) -> bool;

/// `ed25519_dalek::SigningKey::from_bytes(secret).verifying_key().to_bytes()`: the public key
/// of the secret key.
#[verifier::external_body]
pub(crate) fn ed25519_derive_public_key(secret: &[u8; 32]) -> (r: [u8; 32])
    ensures
        r@ == ed25519_public_key(secret@),
{
    ed25519_dalek::SigningKey::from_bytes(secret).verifying_key().to_bytes()
}

/// `<ed25519_dalek::SigningKey as ed25519_dalek::Signer>::sign`, then `Signature::to_bytes`:
/// the (deterministic) Ed25519 signature of `message`.
#[verifier::external_body]
pub(crate) fn ed25519_sign(secret: &[u8; 32], message: &[u8]) -> (r: [u8; 64])
    ensures
        r@ == ed25519_signature(secret@, message@),
{
    ed25519_dalek::Signer::sign(&ed25519_dalek::SigningKey::from_bytes(secret), message).to_bytes()
}

/// `ed25519_dalek::VerifyingKey::from_bytes(public).is_ok()`: whether the bytes decode to a
/// public key. The public key of a 32-byte secret key always decodes (it is the compression of a point
/// of the curve).
#[verifier::external_body]
pub(crate) fn ed25519_public_key_decodes(public: &[u8; 32]) -> (r: bool)
    ensures
        r == ed25519_key_decodes(public@),
        forall|secret: Seq<u8>|
            secret.len() == 32 && #[trigger] ed25519_public_key(secret) == public@ ==> r,
{
    ed25519_dalek::VerifyingKey::from_bytes(public).is_ok()
}

/// `ed25519_dalek::VerifyingKey::from_bytes(public)`, then `Verifier::verify(&key, message,
/// &Signature::from_bytes(signature)).is_ok()`: whether the signature of the message verifies
/// under the public key; false where the key does not decode. A signature made with a 32-byte
/// secret key verifies under that key's public key.
#[verifier::external_body]
pub(crate) fn ed25519_verify(public: &[u8; 32], signature: &[u8; 64], message: &[u8]) -> (r: bool)
    ensures
        r == ed25519_verifies(public@, signature@, message@),
        forall|secret: Seq<u8>|
            #![trigger ed25519_signature(secret, message@)]
            secret.len() == 32 && ed25519_public_key(secret) == public@ && ed25519_signature(
                secret,
                message@,
            ) == signature@ ==> r,
{
    match ed25519_dalek::VerifyingKey::from_bytes(public) {
        Ok(key) => ed25519_dalek::Verifier::verify(
            &key,
            message,
            &ed25519_dalek::Signature::from_bytes(signature),
        ).is_ok(),
        Err(_) => false,
    }
}

} // verus!
