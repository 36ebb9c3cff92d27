//! Signing and verifying an ordered list of prekeys under an identity key.
//!
//! What is signed is the concatenation of the public keys, 32 bytes each, in
//! the order of the list.

use crate::error::X3dhError;
use crate::primitives::{
    ed25519_montgomery, ed25519_public_key, ed25519_sign, ed25519_signature, ed25519_verifies,
    ed25519_verify, random_bytes, x25519_public, x25519_public_key,
};
use vstd::prelude::*;

verus! {

/// A freshly made list of key pairs, each `(secret, public)`, with the owner's
/// signature over the public halves.
pub struct SignedBundle {
    pub bundle: Vec<([u8; 32], [u8; 32])>,
    pub signature: [u8; 64],
}

/// The concatenation of byte strings in listed order.
pub open spec fn concat(parts: Seq<Seq<u8>>) -> Seq<u8>
    decreases parts.len(),
{
    if parts.len() == 0 {
        Seq::empty()
    } else {
        concat(parts.drop_last()) + parts.last()
    }
}

/// The bytes of each key of a list.
pub open spec fn key_bytes(keys: Seq<[u8; 32]>) -> Seq<Seq<u8>> {
    Seq::new(keys.len(), |i: int| keys[i]@)
}

/// The public halves of a list of `(secret, public)` pairs.
pub open spec fn public_halves(pairs: Seq<([u8; 32], [u8; 32])>) -> Seq<Seq<u8>> {
    Seq::new(pairs.len(), |i: int| pairs[i].1@)
}

/// The secret halves of a list of `(secret, public)` pairs.
pub open spec fn secret_halves(pairs: Seq<([u8; 32], [u8; 32])>) -> Seq<Seq<u8>> {
    Seq::new(pairs.len(), |i: int| pairs[i].0@)
}

/// The canonical encoding of a list of public keys: what gets signed.
pub open spec fn encode(publics: Seq<Seq<u8>>) -> Seq<u8> {
    concat(publics)
}

/// The encoding of a single key is the key itself.
pub proof fn lemma_encode_single(key: Seq<u8>)
    ensures
        encode(seq![key]) == key,
{
    let one = seq![key];
    assert(one.drop_last() =~= Seq::<Seq<u8>>::empty());
    assert(concat(one.drop_last()) =~= Seq::<u8>::empty());
    assert(concat(one) =~= key);
}

/// Appending a key to a list appends its bytes to the encoding.
pub proof fn lemma_encode_push(publics: Seq<Seq<u8>>, key: Seq<u8>)
    ensures
        encode(publics.push(key)) == encode(publics) + key,
{
    assert(publics.push(key).drop_last() =~= publics);
}

/// Writes out the encoding of `publics`.
pub fn encode_publics(publics: &[[u8; 32]]) -> (bytes: Vec<u8>)
    ensures
        bytes@ == encode(key_bytes(publics@)),
{
    let mut bytes: Vec<u8> = Vec::new();
    let mut i: usize = 0;
    while i < publics.len()
        invariant
            i <= publics.len(),
            bytes@ == encode(key_bytes(publics@).take(i as int)),
        decreases publics.len() - i,
    {
        proof {
            let all = key_bytes(publics@);
            assert(all.take(i as int + 1) =~= all.take(i as int).push(all[i as int]));
            lemma_encode_push(all.take(i as int), all[i as int]);
        }
        bytes.extend_from_slice(publics[i].as_slice());
        i = i + 1;
    }
    proof {
        let all = key_bytes(publics@);
        assert(all.take(i as int) =~= all);
    }
    bytes
}

/// Writes out the encoding of the public halves of `pairs`.
pub fn encode_pairs(pairs: &[([u8; 32], [u8; 32])]) -> (bytes: Vec<u8>)
    ensures
        bytes@ == encode(public_halves(pairs@)),
{
    let mut bytes: Vec<u8> = Vec::new();
    let mut i: usize = 0;
    while i < pairs.len()
        invariant
            i <= pairs.len(),
            bytes@ == encode(public_halves(pairs@).take(i as int)),
        decreases pairs.len() - i,
    {
        proof {
            let all = public_halves(pairs@);
            assert(all.take(i as int + 1) =~= all.take(i as int).push(all[i as int]));
            lemma_encode_push(all.take(i as int), all[i as int]);
        }
        bytes.extend_from_slice(pairs[i].1.as_slice());
        i = i + 1;
    }
    proof {
        let all = public_halves(pairs@);
        assert(all.take(i as int) =~= all);
    }
    bytes
}

/// Whether `signature` is what `identity_key` signed for `publics`: the list
/// is not empty and the signature verifies over its encoding.
pub open spec fn bundle_verifies(identity_key: Seq<u8>, publics: Seq<Seq<u8>>, signature: Seq<u8>) -> bool {
    publics.len() > 0 && ed25519_verifies(identity_key, encode(publics), signature)
}

/// Signs the public halves of `prekeys`, in listed order, with `signing_key`.
/// The secret halves take no part in the signature. What is made here,
/// `verify_bundle` accepts under the signer's public key, unless the list is
/// empty.
pub fn sign_bundle(signing_key: &[u8; 32], prekeys: &[([u8; 32], [u8; 32])]) -> (signature: [u8; 64])
    ensures
        signature@ == ed25519_signature(signing_key@, encode(public_halves(prekeys@))),
        ed25519_verifies(
            ed25519_public_key(signing_key@),
            encode(public_halves(prekeys@)),
            signature@,
        ),
        prekeys@.len() > 0 ==> bundle_verifies(
            ed25519_public_key(signing_key@),
            public_halves(prekeys@),
            signature@,
        ),
{
    let bytes = encode_pairs(prekeys);
    ed25519_sign(signing_key, bytes.as_slice())
}

/// Accepts `publics` exactly where `signature` verifies over their encoding
/// under `identity_key`. An empty list is never accepted. A key under which
/// a bundle is accepted is a curve point.
pub fn verify_bundle(identity_key: &[u8; 32], publics: &[[u8; 32]], signature: &[u8; 64]) -> (result:
    Result<(), X3dhError>)
    ensures
        result.is_ok() <==> bundle_verifies(identity_key@, key_bytes(publics@), signature@),
        result is Err ==> result == Err::<(), X3dhError>(X3dhError::BundleVerifyFailed),
        result is Ok ==> ed25519_montgomery(identity_key@) is Some,
{
    if publics.len() == 0 {
        return Err(X3dhError::BundleVerifyFailed);
    }
    let bytes = encode_publics(publics);
    if ed25519_verify(identity_key, bytes.as_slice(), signature) {
        Ok(())
    } else {
        Err(X3dhError::BundleVerifyFailed)
    }
}

/// For a single prekey, the bundle verifies exactly where Ed25519 accepts the
/// signature over that key's 32 bytes.
pub proof fn lemma_single_key_bundle(identity_key: Seq<u8>, pre_key: Seq<u8>, signature: Seq<u8>)
    ensures
        bundle_verifies(identity_key, seq![pre_key], signature) <==> ed25519_verifies(
            identity_key,
            pre_key,
            signature,
        ),
{
    lemma_encode_single(pre_key);
}

/// Pairs the secrets with their public keys and signs the public halves.
/// Split from `create_prekey_bundle` so that the secrets can be given.
pub fn prekey_bundle_from_secrets(signing_key: &[u8; 32], secrets: &[[u8; 32]]) -> (made: SignedBundle)
    ensures
        made.bundle@.len() == secrets@.len(),
        secret_halves(made.bundle@) == key_bytes(secrets@),
        forall|i: int|
            0 <= i < secrets@.len() ==> (#[trigger] made.bundle@[i]).1@ == x25519_public_key(
                secrets@[i]@,
            ),
        made.signature@ == ed25519_signature(signing_key@, encode(public_halves(made.bundle@))),
        ed25519_verifies(
            ed25519_public_key(signing_key@),
            encode(public_halves(made.bundle@)),
            made.signature@,
        ),
{
    let mut bundle: Vec<([u8; 32], [u8; 32])> = Vec::new();
    let mut i: usize = 0;
    while i < secrets.len()
        invariant
            i <= secrets.len(),
            bundle@.len() == i,
            forall|j: int| 0 <= j < i ==> (#[trigger] bundle@[j]).0 == secrets@[j],
            forall|j: int|
                0 <= j < i ==> (#[trigger] bundle@[j]).1@ == x25519_public_key(secrets@[j]@),
        decreases secrets.len() - i,
    {
        let secret = secrets[i];
        let public = x25519_public(&secret);
        bundle.push((secret, public));
        i = i + 1;
    }
    let signature = sign_bundle(signing_key, bundle.as_slice());
    assert(secret_halves(bundle@) =~= key_bytes(secrets@));
    SignedBundle { bundle, signature }
}

/// Makes `n` fresh X25519 key pairs from the operating system's generator and
/// signs their public halves, in the order made, with `signing_key`.
pub fn create_prekey_bundle(signing_key: &[u8; 32], n: u32) -> (made: SignedBundle)
    ensures
        made.bundle@.len() == n,
        forall|i: int|
            0 <= i < n ==> (#[trigger] made.bundle@[i]).1@ == x25519_public_key(made.bundle@[i].0@),
        made.signature@ == ed25519_signature(signing_key@, encode(public_halves(made.bundle@))),
        ed25519_verifies(
            ed25519_public_key(signing_key@),
            encode(public_halves(made.bundle@)),
            made.signature@,
        ),
        n > 0 ==> bundle_verifies(
            ed25519_public_key(signing_key@),
            public_halves(made.bundle@),
            made.signature@,
        ),
{
    let mut secrets: Vec<[u8; 32]> = Vec::new();
    let mut i: u32 = 0;
    while i < n
        invariant
            i <= n,
            secrets@.len() == i,
        decreases n - i,
    {
        let secret: [u8; 32] = random_bytes();
        secrets.push(secret);
        i = i + 1;
    }
    let made = prekey_bundle_from_secrets(signing_key, secrets.as_slice());
    assert forall|i: int| 0 <= i < n implies (#[trigger] made.bundle@[i]).1@ == x25519_public_key(
        made.bundle@[i].0@,
    ) by {
        assert(secret_halves(made.bundle@)[i] == key_bytes(secrets@)[i]);
    }
    made
}

} // verus!
