//! Curve25519, Ed25519, HKDF-SHA256 and ChaCha20-Poly1305, as this library
//! sees them: functions from bytes to bytes.
//!
//! Nothing in this file is proved. Every function here hands its arguments to
//! a cryptographic crate, and its contract is taken on trust from that
//! crate's documentation. The spec functions without a body name what the
//! crates compute, so that the rest of the library can state exactly which
//! primitive was applied to which bytes.

use vstd::prelude::*;

verus! {

/// The Ed25519 public key that belongs to a 32-byte signing key.
pub uninterp spec fn ed25519_public_key(secret: Seq<u8>) -> Seq<u8>;

/// The (deterministic) Ed25519 signature of `message` under `secret`.
pub uninterp spec fn ed25519_signature(secret: Seq<u8>, message: Seq<u8>) -> Seq<u8>;

/// Whether `signature` is accepted for `message` under the public key `public`.
/// False where `public` does not decode to a curve point.
pub uninterp spec fn ed25519_verifies(public: Seq<u8>, message: Seq<u8>, signature: Seq<u8>) -> bool;

/// The Montgomery u-coordinate of an Ed25519 public key, where the key decodes
/// to a curve point.
pub uninterp spec fn ed25519_montgomery(public: Seq<u8>) -> Option<Seq<u8>>;

/// The unclamped scalar bytes of an Ed25519 signing key, usable as an X25519
/// static secret.
pub uninterp spec fn ed25519_scalar_bytes(secret: Seq<u8>) -> Seq<u8>;

/// The X25519 public key of a 32-byte secret.
pub uninterp spec fn x25519_public_key(secret: Seq<u8>) -> Seq<u8>;

/// The X25519 shared secret of our `secret` and their `public`.
pub uninterp spec fn x25519_shared_secret(secret: Seq<u8>, public: Seq<u8>) -> Seq<u8>;

/// 32 bytes of HKDF-SHA256 output.
pub uninterp spec fn hkdf_sha256(salt: Seq<u8>, ikm: Seq<u8>, info: Seq<u8>) -> Seq<u8>;

/// ChaCha20-Poly1305 encryption: ciphertext followed by the 16-byte tag, or
/// `None` where the cipher refuses the lengths.
pub uninterp spec fn chacha20poly1305_seal(
    key: Seq<u8>,
    nonce: Seq<u8>,
    aad: Seq<u8>,
    plaintext: Seq<u8>,
) -> Option<Seq<u8>>;

/// ChaCha20-Poly1305 decryption: the plaintext, or `None` where the tag does
/// not authenticate the ciphertext and the associated data.
pub uninterp spec fn chacha20poly1305_open(
    key: Seq<u8>,
    nonce: Seq<u8>,
    aad: Seq<u8>,
    sealed: Seq<u8>,
) -> Option<Seq<u8>>;

/// Calls `ed25519_dalek::SigningKey::verifying_key`. Trusted: the result is
/// the public key of `secret`.
#[verifier::external_body]
pub(crate) fn ed25519_public(secret: &[u8; 32]) -> (public: [u8; 32])
    ensures
        public@ == ed25519_public_key(secret@),
{
    ed25519_dalek::SigningKey::from_bytes(secret).verifying_key().to_bytes()
}

/// Calls `ed25519_dalek::Signer::sign` on a `SigningKey`. Trusted: signing is
/// a function of key and message, and the signature made is accepted under
/// the signer's own public key.
#[verifier::external_body]
pub(crate) fn ed25519_sign(secret: &[u8; 32], message: &[u8]) -> (signature: [u8; 64])
    ensures
        signature@ == ed25519_signature(secret@, message@),
        ed25519_verifies(ed25519_public_key(secret@), message@, signature@),
{
    ed25519_dalek::Signer::sign(&ed25519_dalek::SigningKey::from_bytes(secret), message).to_bytes()
}

/// Calls `ed25519_dalek::Verifier::verify` on a `VerifyingKey`. Trusted: the
/// result is the verdict of Ed25519 verification, and a key that does not
/// decode verifies nothing: a key under which a signature verifies is a curve
/// point and has a Montgomery form.
#[verifier::external_body]
pub(crate) fn ed25519_verify(public: &[u8; 32], message: &[u8], signature: &[u8; 64]) -> (valid: bool)
    ensures
        valid == ed25519_verifies(public@, message@, signature@),
        valid ==> ed25519_montgomery(public@) is Some,
{
    match ed25519_dalek::VerifyingKey::from_bytes(public) {
        Ok(key) => ed25519_dalek::Verifier::verify(
            &key,
            message,
            &ed25519_dalek::Signature::from_bytes(signature),
        ).is_ok(),
        Err(_) => false,
    }
}

/// Calls `ed25519_dalek::VerifyingKey::to_montgomery`. Trusted: the result is
/// the Montgomery form of `public`, `None` where `public` does not decode; and,
/// as the crate documents, for the public key of a 32-byte signing key it is
/// the X25519 public key whose secret is that signing key's scalar bytes,
/// 32 in number.
#[verifier::external_body]
pub(crate) fn ed25519_to_montgomery(public: &[u8; 32]) -> (montgomery: Option<[u8; 32]>)
    ensures
        option_bytes(montgomery) == ed25519_montgomery(public@),
        forall|secret: Seq<u8>|
            secret.len() == 32 && (#[trigger] ed25519_public_key(secret)) == public@
                ==> montgomery is Some && option_bytes(montgomery) == x25519_public_of(
                ed25519_scalar_bytes(secret),
            ),
{
    match ed25519_dalek::VerifyingKey::from_bytes(public) {
        Ok(key) => Some(key.to_montgomery().to_bytes()),
        Err(_) => None,
    }
}

/// Calls `ed25519_dalek::SigningKey::to_scalar_bytes`. Trusted: the result is
/// the key's scalar bytes, and, as the crate documents, they are the X25519
/// secret of the Montgomery form of the key's public key.
#[verifier::external_body]
pub(crate) fn ed25519_to_scalar_bytes(secret: &[u8; 32]) -> (scalar: [u8; 32])
    ensures
        scalar@ == ed25519_scalar_bytes(secret@),
        ed25519_montgomery(ed25519_public_key(secret@)) == Some(x25519_public_key(scalar@)),
{
    ed25519_dalek::SigningKey::from_bytes(secret).to_scalar_bytes()
}

/// Calls `x25519_dalek::PublicKey::from` on a `StaticSecret`. Trusted: the
/// result is the public key of `secret`.
#[verifier::external_body]
pub(crate) fn x25519_public(secret: &[u8; 32]) -> (public: [u8; 32])
    ensures
        public@ == x25519_public_key(secret@),
{
    x25519_dalek::PublicKey::from(&x25519_dalek::StaticSecret::from(*secret)).to_bytes()
}

/// Calls `x25519_dalek::StaticSecret::diffie_hellman`. Trusted: the result is
/// the shared secret of `secret` and `public`, and the two sides of an
/// exchange agree: where `public` is the public key of some other 32-byte
/// secret, that secret and our public key give the same bytes.
#[verifier::external_body]
pub(crate) fn x25519_diffie_hellman(secret: &[u8; 32], public: &[u8; 32]) -> (shared: [u8; 32])
    ensures
        shared@ == x25519_shared_secret(secret@, public@),
        forall|other: Seq<u8>|
            other.len() == 32 && (#[trigger] x25519_public_key(other)) == public@ ==> shared@
                == x25519_shared_secret(other, x25519_public_key(secret@)),
{
    x25519_dalek::StaticSecret::from(*secret).diffie_hellman(
        &x25519_dalek::PublicKey::from(*public),
    ).to_bytes()
}

/// Calls `hkdf::Hkdf::<Sha256>::new` and `expand` for 32 bytes of output, a
/// length that `expand` never refuses. Trusted: the result is HKDF-SHA256 of
/// the three inputs.
#[verifier::external_body]
pub(crate) fn hkdf_sha256_expand(salt: &[u8], ikm: &[u8], info: &[u8]) -> (okm: [u8; 32])
    ensures
        okm@ == hkdf_sha256(salt@, ikm@, info@),
{
    let mut okm = [0u8; 32];
    hkdf::Hkdf::<sha2::Sha256>::new(Some(salt), ikm).expand(info, &mut okm).unwrap();
    okm
}

/// Calls `chacha20poly1305::aead::Aead::encrypt`. Trusted: the result is the
/// cipher's output for these inputs; the cipher refuses a plaintext exactly
/// where it has 2^32 - 1 blocks of 64 bytes or more; and what was sealed opens
/// again to the same plaintext under the same key, nonce and associated data.
#[verifier::external_body]
pub(crate) fn chacha20poly1305_encrypt(
    key: &[u8; 32],
    nonce: &[u8; 12],
    aad: &[u8],
    plaintext: &[u8],
) -> (sealed: Option<Vec<u8>>)
    ensures
        option_vec_bytes(sealed) == chacha20poly1305_seal(key@, nonce@, aad@, plaintext@),
        sealed is Some <==> within_block_limit(plaintext@),
        sealed matches Some(bytes) ==> chacha20poly1305_open(key@, nonce@, aad@, bytes@) == Some(
            plaintext@,
        ),
{
    let cipher = <chacha20poly1305::ChaCha20Poly1305 as chacha20poly1305::KeyInit>::new(
        chacha20poly1305::Key::from_slice(key),
    );
    let payload = chacha20poly1305::aead::Payload { msg: plaintext, aad };
    chacha20poly1305::aead::Aead::encrypt(&cipher, chacha20poly1305::Nonce::from_slice(nonce), payload).ok()
}

/// Calls `chacha20poly1305::aead::Aead::decrypt`. Trusted: the result is the
/// cipher's verdict for these inputs, and decryption undoes encryption: where
/// `sealed` is what sealing some plaintext under the same key, nonce and
/// associated data gives, that plaintext comes back.
#[verifier::external_body]
pub(crate) fn chacha20poly1305_decrypt(
    key: &[u8; 32],
    nonce: &[u8],
    aad: &[u8],
    sealed: &[u8],
) -> (plaintext: Option<Vec<u8>>)
    requires
        nonce@.len() == 12,
    ensures
        option_vec_bytes(plaintext) == chacha20poly1305_open(key@, nonce@, aad@, sealed@),
        forall|clear: Seq<u8>|
            (#[trigger] chacha20poly1305_seal(key@, nonce@, aad@, clear)) == Some(sealed@)
                ==> option_vec_bytes(plaintext) == Some(clear),
{
    let cipher = <chacha20poly1305::ChaCha20Poly1305 as chacha20poly1305::KeyInit>::new(
        chacha20poly1305::Key::from_slice(key),
    );
    let payload = chacha20poly1305::aead::Payload { msg: sealed, aad };
    chacha20poly1305::aead::Aead::decrypt(&cipher, chacha20poly1305::Nonce::from_slice(nonce), payload).ok()
}

/// Calls `rand_core::RngCore::fill_bytes` on the operating system's
/// generator. Nothing is claimed of the bytes. Where the operating system
/// has no random bytes to give, the generator panics; no argument decides
/// that.
#[verifier::external_body]
pub(crate) fn random_bytes<const N: usize>() -> (bytes: [u8; N]) {
    let mut bytes = [0u8; N];
    rand_core::RngCore::fill_bytes(&mut rand_core::OsRng, &mut bytes);
    bytes
}

/// The X25519 public key of `secret`, where `secret` has the 32 bytes of a
/// secret.
pub open spec fn x25519_public_of(secret: Seq<u8>) -> Option<Seq<u8>> {
    if secret.len() == 32 {
        Some(x25519_public_key(secret))
    } else {
        None
    }
}

/// Whether the cipher takes a plaintext of this length: fewer than 2^32 - 1
/// blocks of 64 bytes.
pub open spec fn within_block_limit(plaintext: Seq<u8>) -> bool {
    plaintext.len() / 64 < 0xffff_ffff
}

/// The bytes of an optional 32-byte value.
pub open spec fn option_bytes(value: Option<[u8; 32]>) -> Option<Seq<u8>> {
    match value {
        Some(bytes) => Some(bytes@),
        None => None,
    }
}

/// The bytes of an optional byte vector.
pub open spec fn option_vec_bytes(value: Option<Vec<u8>>) -> Option<Seq<u8>> {
    match value {
        Some(bytes) => Some(bytes@),
        None => None,
    }
}

} // verus!
