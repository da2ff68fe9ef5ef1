//! Ed25519 keys and signatures.
use ed25519_dalek::{Signature, Signer, SigningKey, VerifyingKey};
use rand::rngs::OsRng;
use vstd::prelude::*;

verus! {

/// The public key that belongs to a secret key.
pub uninterp spec fn ed25519_public_key(secret: Seq<u8>) -> Seq<u8>;

/// The signature that a secret key gives a message.
pub uninterp spec fn ed25519_signature(secret: Seq<u8>, message: Seq<u8>) -> Seq<u8>;

/// Whether a signature of a message strictly verifies under a public key.
pub uninterp spec fn ed25519_verifies(
    public_key: Seq<u8>,
    message: Seq<u8>,
    signature: Seq<u8>,
) -> bool;

/// Whether the point that a signature starts with is the neutral one, which strict verification
/// turns down.
pub open spec fn has_neutral_point(signature: Seq<u8>) -> bool {
    signature[0] == 1 && forall|i: int| 1 <= i < 32 ==> signature[i] == 0
}

/// Calls `ed25519_dalek::SigningKey::generate` on the operating system's generator: a secret key
/// made of random bytes, of which nothing is claimed.
#[verifier::external_body]
fn random_secret() -> (secret: [u8; 32]) {
    SigningKey::generate(&mut OsRng).to_bytes()
}

/// Calls `ed25519_dalek::SigningKey::verifying_key`: the public key depends on the secret key
/// alone.
#[verifier::external_body]
fn public_key(secret: &[u8; 32]) -> (key: [u8; 32])
    ensures
        key@ == ed25519_public_key(secret@),
{
    SigningKey::from_bytes(secret).verifying_key().to_bytes()
}

/// Calls `ed25519_dalek::SigningKey::sign`: the signature depends on the secret key and the message
/// alone, and it strictly verifies under the public key that belongs to the secret key, unless its
/// point is the neutral one.
#[verifier::external_body]
fn sign_with(secret: &[u8; 32], message: &[u8]) -> (signature: [u8; 64])
    ensures
        signature@ == ed25519_signature(secret@, message@),
        !has_neutral_point(signature@) ==> ed25519_verifies(
            ed25519_public_key(secret@),
            message@,
            signature@,
        ),
{
    SigningKey::from_bytes(secret).sign(message).to_bytes()
}

/// Calls `ed25519_dalek::VerifyingKey::verify_strict`: whether a signature strictly verifies
/// depends on the public key, the message and the signature alone. Bytes that are no public key
/// verify nothing.
#[verifier::external_body]
pub(crate) fn verify_signature(public_key: &[u8; 32], message: &[u8], signature: &[u8; 64]) -> (ok:
    bool)
    ensures
        ok == ed25519_verifies(public_key@, message@, signature@),
{
    match VerifyingKey::from_bytes(public_key) {
        Ok(key) => key.verify_strict(message, &Signature::from_bytes(signature)).is_ok(),
        Err(_) => false,
    }
}

/// A key pair.
#[derive(Clone, Copy, Debug, PartialEq, Eq)]
pub struct KeyMaterial {
    pub secret: [u8; 32],
    pub pub_bytes: [u8; 32],
}

impl KeyMaterial {
    /// Whether the public key belongs to the secret key.
    pub open spec fn matched(self) -> bool {
        self.pub_bytes@ == ed25519_public_key(self.secret@)
    }

    /// A new random key pair.
    pub fn fresh() -> (k: KeyMaterial)
        ensures
            k.matched(),
    {
        KeyMaterial::from_secret(&random_secret())
    }

    /// The key pair of a secret key.
    pub fn from_secret(secret: &[u8; 32]) -> (k: KeyMaterial)
        ensures
            k.secret@ == secret@,
            k.matched(),
    {
        KeyMaterial { secret: *secret, pub_bytes: public_key(secret) }
    }

    /// Signs a message.
    pub fn sign(&self, message: &[u8]) -> (signature: [u8; 64])
        ensures
            signature@ == ed25519_signature(self.secret@, message@),
            self.matched() && !has_neutral_point(signature@) ==> ed25519_verifies(
                self.pub_bytes@,
                message@,
                signature@,
            ),
    {
        sign_with(&self.secret, message)
    }
}

} // verus!
