//! Ed25519 key pairs, held as their 32 secret bytes, and the signatures they make.

use vstd::prelude::*;

use crate::primitives::{
    ed25519_derive_public_key, ed25519_public_key, ed25519_public_key_decodes, ed25519_sign,
    ed25519_signature, ed25519_verifies, ed25519_verify, ed25519_key_decodes, random_secret_key,
};

verus! {

/// The length of an Ed25519 public key in bytes.
pub const PUBLIC_KEY_LENGTH: usize = 32;

/// The length of an Ed25519 secret key in bytes.
pub const SECRET_KEY_LENGTH: usize = 32;

/// The length of an Ed25519 signature in bytes.
pub const SIGNATURE_LENGTH: usize = 64;

/// A key pair, held as the secret key it is derived from.
pub type KeysPair = [u8; SECRET_KEY_LENGTH];

/// The bytes of an Ed25519 signature.
pub type SignatureBytes = [u8; SIGNATURE_LENGTH];

/// A new random key pair.
pub fn generate_keys_pair() -> (r: KeysPair) {
    random_secret_key()
}

/// The public key of a key pair.
pub fn public_key(keys_pair: &KeysPair) -> (r: [u8; PUBLIC_KEY_LENGTH])
    ensures
        r@ == ed25519_public_key(keys_pair@),
{
    ed25519_derive_public_key(keys_pair)
}

/// Whether 32 bytes are a public key (they decode to a point of the curve); the public key of
/// a key pair is one.
pub fn public_key_is_valid(key: &[u8; PUBLIC_KEY_LENGTH]) -> (r: bool)
    ensures
        r == ed25519_key_decodes(key@),
        forall|secret: Seq<u8>|
            secret.len() == SECRET_KEY_LENGTH && #[trigger] ed25519_public_key(secret) == key@
                ==> r,
{
    ed25519_public_key_decodes(key)
}

/// The signature of `message` with the key pair.
pub fn sign(keys_pair: &KeysPair, message: &[u8]) -> (r: SignatureBytes)
    ensures
        r@ == ed25519_signature(keys_pair@, message@),
{
    ed25519_sign(keys_pair, message)
}

/// Whether `signature` is a signature of `message` under the key pair's public key; the
/// signatures that the key pair makes verify.
pub fn verify_private(keys_pair: &KeysPair, signature: &SignatureBytes, message: &[u8]) -> (r: bool)
    ensures
        r == ed25519_verifies(ed25519_public_key(keys_pair@), signature@, message@),
        signature@ == ed25519_signature(keys_pair@, message@) ==> r,
{
    let key = public_key(keys_pair);
    verify_public(&key, signature, message)
}

/// Whether `signature` is a signature of `message` under the public key `key`; the signatures
/// made with a key pair verify under its public key.
pub fn verify_public(key: &[u8; PUBLIC_KEY_LENGTH], signature: &SignatureBytes, message: &[u8]) -> (r:
    bool)
    ensures
        r == ed25519_verifies(key@, signature@, message@),
        forall|secret: Seq<u8>|
            #![trigger ed25519_signature(secret, message@)]
            secret.len() == SECRET_KEY_LENGTH && ed25519_public_key(secret) == key@
                && ed25519_signature(secret, message@) == signature@ ==> r,
{
    ed25519_verify(key, signature, message)
}

} // verus!
