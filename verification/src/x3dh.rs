//! The sender and receiver halves of the X3DH key agreement, and the first
//! encrypted message that rides on it.
//!
//! The sender combines three or four Diffie-Hellman results, in a fixed
//! order, into a session key; the receiver computes the same results from the
//! other side of each exchange. Both bind the two identity keys to the
//! ciphertext as associated data.

use crate::aead::{decrypt_data, encrypt_data, open_framed, seal_framed};
use crate::bundle::{bundle_verifies, verify_bundle};
use crate::client::{SessionKeys, X3DHClient};
use crate::error::X3dhError;
use crate::primitives::{
    ed25519_montgomery, ed25519_public, ed25519_public_key, ed25519_scalar_bytes,
    ed25519_to_montgomery, ed25519_to_scalar_bytes, hkdf_sha256, hkdf_sha256_expand,
    option_bytes, random_bytes, within_block_limit, x25519_diffie_hellman, x25519_public,
    x25519_public_key, x25519_shared_secret,
};
use vstd::prelude::*;

verus! {

/// A prekey with the owner's signature over its 32 bytes.
#[derive(Clone, Copy, Debug)]
pub struct SignedPreKey {
    pub pre_key: [u8; 32],
    pub signature: [u8; 64],
}

/// An ordered list of prekeys with the owner's signature over their
/// concatenation.
#[derive(Debug)]
pub struct SignedPreKeys {
    pub pre_keys: Vec<[u8; 32]>,
    pub signature: [u8; 64],
}

/// What the directory hands to a sender: the recipient's identity key and
/// signed prekey, and one of the recipient's one-time keys if any is left.
#[derive(Clone, Copy, Debug)]
pub struct PreKeyBundle {
    pub identity_key: [u8; 32],
    pub otk: Option<[u8; 32]>,
    pub spk: SignedPreKey,
}

/// The first message of a session. `otk` names the one-time key of the
/// recipient that the sender used; it is no secret.
#[derive(Debug)]
pub struct Message {
    pub sender_identity_key: [u8; 32],
    pub ephemeral_key: [u8; 32],
    pub otk: Option<[u8; 32]>,
    pub ciphertext: Vec<u8>,
}

/// A message as plain values.
pub struct MessageView {
    pub sender_identity_key: Seq<u8>,
    pub ephemeral_key: Seq<u8>,
    pub otk: Option<Seq<u8>>,
    pub ciphertext: Seq<u8>,
}

impl View for Message {
    type V = MessageView;

    open spec fn view(&self) -> MessageView {
        MessageView {
            sender_identity_key: self.sender_identity_key@,
            ephemeral_key: self.ephemeral_key@,
            otk: option_bytes(self.otk),
            ciphertext: self.ciphertext@,
        }
    }
}

impl Message {
    /// A copy of the message.
    pub fn duplicate(&self) -> (copy: Message)
        ensures
            copy@ == self@,
    {
        let ciphertext = crate::aead::copy_range(self.ciphertext.as_slice(), 0, self.ciphertext.len());
        assert(ciphertext@ =~= self.ciphertext@);
        Message {
            sender_identity_key: self.sender_identity_key,
            ephemeral_key: self.ephemeral_key,
            otk: self.otk,
            ciphertext,
        }
    }
}

/// The sender's public ephemeral key and the session key it derived.
pub struct X3DHInitiateSendSkResult {
    pub ephemeral_key: [u8; 32],
    pub secret_key: [u8; 32],
}

/// The salt of the key derivation: 32 zero bytes.
pub open spec fn kdf_salt() -> Seq<u8> {
    Seq::new(32, |i: int| 0u8)
}

/// The domain separator that leads the input key material: 32 bytes of 0xFF.
pub open spec fn kdf_prefix() -> Seq<u8> {
    Seq::new(32, |i: int| 0xFFu8)
}

/// The application's name, "Brongnal" in ASCII.
pub open spec fn kdf_info() -> Seq<u8> {
    seq![0x42u8, 0x72u8, 0x6fu8, 0x6eu8, 0x67u8, 0x6eu8, 0x61u8, 0x6cu8]
}

/// The session key derived from key material `km`.
pub open spec fn kdf_spec(km: Seq<u8>) -> Seq<u8> {
    hkdf_sha256(kdf_salt(), kdf_prefix() + km, kdf_info())
}

/// The key material: the Diffie-Hellman results in their fixed order, the
/// fourth only where a one-time key takes part.
pub open spec fn key_material(dh1: Seq<u8>, dh2: Seq<u8>, dh3: Seq<u8>, dh4: Option<Seq<u8>>) -> Seq<
    u8,
> {
    match dh4 {
        Some(last) => dh1 + dh2 + dh3 + last,
        None => dh1 + dh2 + dh3,
    }
}

/// The associated data of the first message: the sender's identity key, then
/// the recipient's.
pub open spec fn associated_data_spec(sender: Seq<u8>, recipient: Seq<u8>) -> Seq<u8> {
    sender + recipient
}

/// The session key that a sender derives, where the recipient's identity key
/// is a curve point.
pub open spec fn sender_session_key(
    sender_secret: Seq<u8>,
    ephemeral_secret: Seq<u8>,
    recipient_identity_key: Seq<u8>,
    signed_pre_key: Seq<u8>,
    one_time_key: Option<Seq<u8>>,
) -> Option<Seq<u8>> {
    match ed25519_montgomery(recipient_identity_key) {
        None => None,
        Some(recipient) => Some(
            kdf_spec(
                key_material(
                    x25519_shared_secret(ed25519_scalar_bytes(sender_secret), signed_pre_key),
                    x25519_shared_secret(ephemeral_secret, recipient),
                    x25519_shared_secret(ephemeral_secret, signed_pre_key),
                    match one_time_key {
                        Some(key) => Some(x25519_shared_secret(ephemeral_secret, key)),
                        None => None,
                    },
                ),
            ),
        ),
    }
}

/// The session key that a receiver derives, where the sender's identity key
/// is a curve point.
pub open spec fn receiver_session_key(
    identity_secret: Seq<u8>,
    pre_key_secret: Seq<u8>,
    sender_identity_key: Seq<u8>,
    ephemeral_key: Seq<u8>,
    one_time_secret: Option<Seq<u8>>,
) -> Option<Seq<u8>> {
    match ed25519_montgomery(sender_identity_key) {
        None => None,
        Some(sender) => Some(
            kdf_spec(
                key_material(
                    x25519_shared_secret(pre_key_secret, sender),
                    x25519_shared_secret(ed25519_scalar_bytes(identity_secret), ephemeral_key),
                    x25519_shared_secret(pre_key_secret, ephemeral_key),
                    match one_time_secret {
                        Some(secret) => Some(x25519_shared_secret(secret, ephemeral_key)),
                        None => None,
                    },
                ),
            ),
        ),
    }
}

/// Why a receiver stops before it derives a key, if it does: the sender's
/// identity key is no curve point, or the message names a one-time key that
/// the receiver holds no secret for.
pub open spec fn receiver_refusal(
    one_time_keys: Map<Seq<u8>, Seq<u8>>,
    sender_identity_key: Seq<u8>,
    one_time_key: Option<Seq<u8>>,
) -> Option<X3dhError> {
    if ed25519_montgomery(sender_identity_key) is None {
        Some(X3dhError::InvalidEncoding)
    } else if one_time_key is Some && !one_time_keys.dom().contains(one_time_key->Some_0) {
        Some(X3dhError::UnknownOneTimeKey)
    } else {
        None
    }
}

/// The receiver's one-time keys after a message was handled: without the
/// key that the message named, unless the sender's identity key was refused
/// before the store was touched.
pub open spec fn keys_after_receipt(
    one_time_keys: Map<Seq<u8>, Seq<u8>>,
    sender_identity_key: Seq<u8>,
    one_time_key: Option<Seq<u8>>,
) -> Map<Seq<u8>, Seq<u8>> {
    match one_time_key {
        Some(named) if ed25519_montgomery(sender_identity_key) is Some => one_time_keys.remove(
            named,
        ),
        _ => one_time_keys,
    }
}

/// The secret of the one-time key that a message names, if it names one.
pub open spec fn named_secret(one_time_keys: Map<Seq<u8>, Seq<u8>>, one_time_key: Option<Seq<u8>>) -> Option<
    Seq<u8>,
> {
    match one_time_key {
        Some(named) => Some(one_time_keys[named]),
        None => None,
    }
}

/// The first message that a sender with the given secrets makes of
/// `plaintext` for the owner of `bundle`, with the session key it derives.
/// `None` where the sender gives up: the signed prekey does not verify, the
/// recipient's identity key is no curve point, or the cipher refuses the
/// payload.
pub open spec fn initial_message(
    sender_secret: Seq<u8>,
    ephemeral_secret: Seq<u8>,
    nonce: Seq<u8>,
    recipient_identity_key: Seq<u8>,
    signed_pre_key: Seq<u8>,
    signature: Seq<u8>,
    one_time_key: Option<Seq<u8>>,
    plaintext: Seq<u8>,
) -> Option<(Seq<u8>, MessageView)> {
    if !bundle_verifies(recipient_identity_key, seq![signed_pre_key], signature) {
        None
    } else {
        match sender_session_key(
            sender_secret,
            ephemeral_secret,
            recipient_identity_key,
            signed_pre_key,
            one_time_key,
        ) {
            None => None,
            Some(key) => match seal_framed(
                key,
                nonce,
                associated_data_spec(ed25519_public_key(sender_secret), recipient_identity_key),
                plaintext,
            ) {
                None => None,
                Some(ciphertext) => Some(
                    (
                        key,
                        MessageView {
                            sender_identity_key: ed25519_public_key(sender_secret),
                            ephemeral_key: x25519_public_key(ephemeral_secret),
                            otk: one_time_key,
                            ciphertext,
                        },
                    ),
                ),
            },
        }
    }
}

/// What the sender half leaves behind on a bundle that verifies, for the
/// ephemeral secret and nonce it used: the session key is derived and
/// recorded for the recipient in any case; the message made of it is
/// returned, or `EncryptFailed` where the cipher refused the payload.
pub open spec fn sender_outcome(
    before: Map<Seq<char>, Seq<u8>>,
    after: Map<Seq<char>, Seq<u8>>,
    result: Result<Message, X3dhError>,
    recipient: Seq<char>,
    sender_secret: Seq<u8>,
    ephemeral_secret: Seq<u8>,
    nonce: Seq<u8>,
    recipient_identity_key: Seq<u8>,
    signed_pre_key: Seq<u8>,
    signature: Seq<u8>,
    one_time_key: Option<Seq<u8>>,
    plaintext: Seq<u8>,
) -> bool {
    let key = sender_session_key(
        sender_secret,
        ephemeral_secret,
        recipient_identity_key,
        signed_pre_key,
        one_time_key,
    );
    &&& key is Some
    &&& after == before.insert(recipient, key->Some_0)
    &&& match initial_message(
        sender_secret,
        ephemeral_secret,
        nonce,
        recipient_identity_key,
        signed_pre_key,
        signature,
        one_time_key,
        plaintext,
    ) {
        Some(made) => result is Ok && result->Ok_0@ == made.1 && made.0 == key->Some_0,
        None => result is Err && result->Err_0 == X3dhError::EncryptFailed,
    }
}

fn filled(byte: u8, count: usize) -> (bytes: Vec<u8>)
    ensures
        bytes@ == Seq::new(count as nat, |i: int| byte),
{
    let mut bytes: Vec<u8> = Vec::new();
    let mut i: usize = 0;
    while i < count
        invariant
            i <= count,
            bytes@ == Seq::new(i as nat, |j: int| byte),
        decreases count - i,
    {
        bytes.push(byte);
        assert(bytes@ =~= Seq::new((i + 1) as nat, |j: int| byte));
        i = i + 1;
    }
    bytes
}

/// Derives 32 bytes from key material: HKDF-SHA256 with a salt of 32 zero
/// bytes, the material behind 32 bytes of 0xFF, and the application's name
/// as info.
pub fn kdf(km: &[u8]) -> (okm: [u8; 32])
    ensures
        okm@ == kdf_spec(km@),
{
    let salt = filled(0u8, 32);
    let mut ikm = filled(0xFFu8, 32);
    ikm.extend_from_slice(km);
    let mut info: Vec<u8> = Vec::new();
    info.push(0x42u8);
    info.push(0x72u8);
    info.push(0x6fu8);
    info.push(0x6eu8);
    info.push(0x67u8);
    info.push(0x6eu8);
    info.push(0x61u8);
    info.push(0x6cu8);
    assert(info@ =~= kdf_info());
    assert(salt@ =~= kdf_salt());
    assert(ikm@ =~= kdf_prefix() + km@);
    hkdf_sha256_expand(salt.as_slice(), ikm.as_slice(), info.as_slice())
}

/// The same key material always gives the same session key.
pub proof fn lemma_kdf_deterministic(first: Seq<u8>, second: Seq<u8>)
    requires
        first == second,
    ensures
        kdf_spec(first) == kdf_spec(second),
{
}

fn derive(dh1: &[u8; 32], dh2: &[u8; 32], dh3: &[u8; 32], dh4: Option<[u8; 32]>) -> (key: [u8; 32])
    ensures
        key@ == kdf_spec(key_material(dh1@, dh2@, dh3@, option_bytes(dh4))),
{
    let mut km: Vec<u8> = Vec::new();
    km.extend_from_slice(dh1.as_slice());
    km.extend_from_slice(dh2.as_slice());
    km.extend_from_slice(dh3.as_slice());
    match dh4 {
        Some(last) => {
            km.extend_from_slice(last.as_slice());
        },
        None => {},
    }
    assert(km@ =~= key_material(dh1@, dh2@, dh3@, option_bytes(dh4)));
    kdf(km.as_slice())
}

/// The associated data of the first message.
pub fn associated_data(sender: &[u8; 32], recipient: &[u8; 32]) -> (bytes: Vec<u8>)
    ensures
        bytes@ == associated_data_spec(sender@, recipient@),
{
    let mut bytes: Vec<u8> = Vec::new();
    bytes.extend_from_slice(sender.as_slice());
    bytes.extend_from_slice(recipient.as_slice());
    assert(bytes@ =~= sender@ + recipient@);
    bytes
}

/// The identity key that others know a signing key by.
pub fn identity_key_of(signing_key: &[u8; 32]) -> (identity_key: [u8; 32])
    ensures
        identity_key@ == ed25519_public_key(signing_key@),
{
    ed25519_public(signing_key)
}

/// The public half of a prekey, a one-time key or an ephemeral key.
pub fn pre_key_of(secret: &[u8; 32]) -> (public: [u8; 32])
    ensures
        public@ == x25519_public_key(secret@),
{
    x25519_public(secret)
}

/// The sender's key derivation with a given ephemeral secret.
///
/// Succeeds exactly where the signed prekey verifies under the recipient's
/// identity key; the result then holds the public ephemeral key and the
/// session key.
pub fn x3dh_initiate_send_sk_with(
    identity_key: &[u8; 32],
    signed_pre_key: &SignedPreKey,
    one_time_key: Option<[u8; 32]>,
    sender_key: &[u8; 32],
    ephemeral_secret: &[u8; 32],
) -> (result: Result<X3DHInitiateSendSkResult, X3dhError>)
    ensures
        result is Ok <==> bundle_verifies(
            identity_key@,
            seq![signed_pre_key.pre_key@],
            signed_pre_key.signature@,
        ),
        result is Err ==> result->Err_0 == X3dhError::BundleVerifyFailed,
        result is Ok ==> result->Ok_0.ephemeral_key@ == x25519_public_key(ephemeral_secret@)
            && Some(result->Ok_0.secret_key@) == sender_session_key(
            sender_key@,
            ephemeral_secret@,
            identity_key@,
            signed_pre_key.pre_key@,
            option_bytes(one_time_key),
        ),
{
    let mut publics: Vec<[u8; 32]> = Vec::new();
    publics.push(signed_pre_key.pre_key);
    assert(crate::bundle::key_bytes(publics@) =~= seq![signed_pre_key.pre_key@]);
    if verify_bundle(identity_key, publics.as_slice(), &signed_pre_key.signature).is_err() {
        return Err(X3dhError::BundleVerifyFailed);
    }
    // A key under which the prekey verified is a curve point.
    let recipient = match ed25519_to_montgomery(identity_key) {
        Some(point) => point,
        None => {
            proof {
                assert(false);
            }
            return Err(X3dhError::InvalidEncoding);
        },
    };
    let scalar = ed25519_to_scalar_bytes(sender_key);
    let dh1 = x25519_diffie_hellman(&scalar, &signed_pre_key.pre_key);
    let dh2 = x25519_diffie_hellman(ephemeral_secret, &recipient);
    let dh3 = x25519_diffie_hellman(ephemeral_secret, &signed_pre_key.pre_key);
    let dh4 = match one_time_key {
        Some(key) => Some(x25519_diffie_hellman(ephemeral_secret, &key)),
        None => None,
    };
    let secret_key = derive(&dh1, &dh2, &dh3, dh4);
    Ok(X3DHInitiateSendSkResult { ephemeral_key: x25519_public(ephemeral_secret), secret_key })
}

/// The sender's key derivation with a fresh ephemeral secret from the
/// operating system's generator. The secret is used for this one call and
/// not kept. Succeeds exactly where the signed prekey verifies under the
/// recipient's identity key; the keys returned are then those that some
/// 32-byte ephemeral secret gives.
pub fn x3dh_initiate_send_sk(
    identity_key: &[u8; 32],
    signed_pre_key: &SignedPreKey,
    one_time_key: Option<[u8; 32]>,
    sender_key: &[u8; 32],
) -> (result: Result<X3DHInitiateSendSkResult, X3dhError>)
    ensures
        result is Ok <==> bundle_verifies(
            identity_key@,
            seq![signed_pre_key.pre_key@],
            signed_pre_key.signature@,
        ),
        result is Err ==> result->Err_0 == X3dhError::BundleVerifyFailed,
        result is Ok ==> exists|ephemeral_secret: Seq<u8>|
            ephemeral_secret.len() == 32 && result->Ok_0.ephemeral_key@ == x25519_public_key(
                ephemeral_secret,
            ) && Some(result->Ok_0.secret_key@) == #[trigger] sender_session_key(
                sender_key@,
                ephemeral_secret,
                identity_key@,
                signed_pre_key.pre_key@,
                option_bytes(one_time_key),
            ),
{
    let ephemeral_secret: [u8; 32] = random_bytes();
    let result = x3dh_initiate_send_sk_with(
        identity_key,
        signed_pre_key,
        one_time_key,
        sender_key,
        &ephemeral_secret,
    );
    proof {
        if result is Ok {
            assert(Some(result->Ok_0.secret_key@) == sender_session_key(
                sender_key@,
                ephemeral_secret@,
                identity_key@,
                signed_pre_key.pre_key@,
                option_bytes(one_time_key),
            ));
        }
    }
    result
}

/// The sender half with a given ephemeral secret and nonce.
///
/// Derives the session key for the owner of `bundle`, records it for
/// `recipient_identity`, and seals `message` under it, bound to the two
/// identity keys. Where the bundle is refused, no session is recorded.
/// Succeeds exactly where the bundle verifies and the payload is within the
/// cipher's block limit.
pub fn x3dh_initiate_send_with(
    sessions: &mut SessionKeys,
    recipient_identity: &String,
    bundle: &PreKeyBundle,
    sender_key: &[u8; 32],
    message: &[u8],
    ephemeral_secret: &[u8; 32],
    nonce: &[u8; 12],
) -> (result: Result<Message, X3dhError>)
    requires
        old(sessions).valid(),
    ensures
        final(sessions).valid(),
        !bundle_verifies(bundle.identity_key@, seq![bundle.spk.pre_key@], bundle.spk.signature@)
            ==> result is Err && result->Err_0 == X3dhError::BundleVerifyFailed && final(sessions)@
            == old(sessions)@,
        bundle_verifies(bundle.identity_key@, seq![bundle.spk.pre_key@], bundle.spk.signature@)
            ==> sender_outcome(
            old(sessions)@,
            final(sessions)@,
            result,
            recipient_identity@,
            sender_key@,
            ephemeral_secret@,
            nonce@,
            bundle.identity_key@,
            bundle.spk.pre_key@,
            bundle.spk.signature@,
            option_bytes(bundle.otk),
            message@,
        ),
        result is Ok <==> bundle_verifies(
            bundle.identity_key@,
            seq![bundle.spk.pre_key@],
            bundle.spk.signature@,
        ) && within_block_limit(message@),
        result is Ok ==> result->Ok_0@ == (MessageView {
            sender_identity_key: ed25519_public_key(sender_key@),
            ephemeral_key: x25519_public_key(ephemeral_secret@),
            otk: option_bytes(bundle.otk),
            ciphertext: seal_framed(
                final(sessions)@[recipient_identity@],
                nonce@,
                associated_data_spec(ed25519_public_key(sender_key@), bundle.identity_key@),
                message@,
            )->Some_0,
        }),
{
    let derived = match x3dh_initiate_send_sk_with(
        &bundle.identity_key,
        &bundle.spk,
        bundle.otk,
        sender_key,
        ephemeral_secret,
    ) {
        Ok(derived) => derived,
        Err(e) => {
            return Err(e);
        },
    };
    let sender_identity_key = ed25519_public(sender_key);
    let aad = associated_data(&sender_identity_key, &bundle.identity_key);
    sessions.set_session_key(recipient_identity.clone(), &derived.secret_key);
    match encrypt_data(&derived.secret_key, nonce, aad.as_slice(), message) {
        Some(ciphertext) => Ok(
            Message {
                sender_identity_key,
                ephemeral_key: derived.ephemeral_key,
                otk: bundle.otk,
                ciphertext,
            },
        ),
        None => Err(X3dhError::EncryptFailed),
    }
}

/// The sender half: as `x3dh_initiate_send_with`, with a fresh ephemeral
/// secret and a fresh nonce from the operating system's generator.
///
/// A bundle that does not verify is refused and leaves the sessions as they
/// were. On a bundle that verifies, whatever was drawn, the session key is
/// derived and recorded for the recipient, and the message sealed under it
/// is returned, unless the payload is beyond the cipher's block limit.
pub fn x3dh_initiate_send(
    sessions: &mut SessionKeys,
    recipient_identity: &String,
    bundle: &PreKeyBundle,
    sender_key: &[u8; 32],
    message: &[u8],
) -> (result: Result<Message, X3dhError>)
    requires
        old(sessions).valid(),
    ensures
        final(sessions).valid(),
        !bundle_verifies(bundle.identity_key@, seq![bundle.spk.pre_key@], bundle.spk.signature@)
            ==> result is Err && result->Err_0 == X3dhError::BundleVerifyFailed && final(sessions)@
            == old(sessions)@,
        bundle_verifies(bundle.identity_key@, seq![bundle.spk.pre_key@], bundle.spk.signature@)
            ==> exists|ephemeral_secret: Seq<u8>, nonce: Seq<u8>|
            ephemeral_secret.len() == 32 && nonce.len() == 12 && #[trigger] sender_outcome(
                old(sessions)@,
                final(sessions)@,
                result,
                recipient_identity@,
                sender_key@,
                ephemeral_secret,
                nonce,
                bundle.identity_key@,
                bundle.spk.pre_key@,
                bundle.spk.signature@,
                option_bytes(bundle.otk),
                message@,
            ),
        result is Ok <==> bundle_verifies(
            bundle.identity_key@,
            seq![bundle.spk.pre_key@],
            bundle.spk.signature@,
        ) && within_block_limit(message@),
        result is Ok ==> result->Ok_0.sender_identity_key@ == ed25519_public_key(sender_key@)
            && option_bytes(result->Ok_0.otk) == option_bytes(bundle.otk),
{
    let ephemeral_secret: [u8; 32] = random_bytes();
    let nonce: [u8; 12] = random_bytes();
    let result = x3dh_initiate_send_with(
        sessions,
        recipient_identity,
        bundle,
        sender_key,
        message,
        &ephemeral_secret,
        &nonce,
    );
    proof {
        if bundle_verifies(bundle.identity_key@, seq![bundle.spk.pre_key@], bundle.spk.signature@) {
            assert(sender_outcome(
                old(sessions)@,
                sessions@,
                result,
                recipient_identity@,
                sender_key@,
                ephemeral_secret@,
                nonce@,
                bundle.identity_key@,
                bundle.spk.pre_key@,
                bundle.spk.signature@,
                option_bytes(bundle.otk),
                message@,
            ));
        }
    }
    result
}

/// The receiver's key derivation.
///
/// Where the message names a one-time key, its secret is taken out of the
/// client's store before anything is derived from it, and stays out whatever
/// happens to the message afterwards.
pub fn x3dh_initiate_recv_sk<C: X3DHClient>(
    client: &mut C,
    sender_identity_key: &[u8; 32],
    ephemeral_key: &[u8; 32],
    otk: Option<[u8; 32]>,
    identity_key: &[u8; 32],
    pre_key: &[u8; 32],
) -> (result: Result<[u8; 32], X3dhError>)
    requires
        old(client).valid(),
    ensures
        final(client).valid(),
        final(client).identity_secret() == old(client).identity_secret(),
        final(client).pre_key_secret() == old(client).pre_key_secret(),
        final(client).one_time_keys() == keys_after_receipt(
            old(client).one_time_keys(),
            sender_identity_key@,
            option_bytes(otk),
        ),
        match receiver_refusal(old(client).one_time_keys(), sender_identity_key@, option_bytes(otk)) {
            Some(refusal) => result is Err && result->Err_0 == refusal,
            None => result is Ok && Some(result->Ok_0@) == receiver_session_key(
                identity_key@,
                pre_key@,
                sender_identity_key@,
                ephemeral_key@,
                named_secret(old(client).one_time_keys(), option_bytes(otk)),
            ),
        },
        forall|sender_secret: Seq<u8>, ephemeral_secret: Seq<u8>|
            sender_secret.len() == 32 && ephemeral_secret.len() == 32 && ed25519_public_key(
                sender_secret,
            ) == sender_identity_key@ && x25519_public_key(
                ephemeral_secret,
            ) == ephemeral_key@ && receiver_refusal(
                old(client).one_time_keys(),
                sender_identity_key@,
                option_bytes(otk),
            ) != Some(X3dhError::UnknownOneTimeKey) ==> result is Ok && Some(result->Ok_0@)
                == #[trigger] sender_session_key(
                sender_secret,
                ephemeral_secret,
                ed25519_public_key(identity_key@),
                x25519_public_key(pre_key@),
                option_bytes(otk),
            ),
{
    let sender = match ed25519_to_montgomery(sender_identity_key) {
        Some(point) => point,
        None => {
            return Err(X3dhError::InvalidEncoding);
        },
    };
    let scalar = ed25519_to_scalar_bytes(identity_key);
    let dh1 = x25519_diffie_hellman(pre_key, &sender);
    let dh2 = x25519_diffie_hellman(&scalar, ephemeral_key);
    let dh3 = x25519_diffie_hellman(pre_key, ephemeral_key);
    let dh4 = match otk {
        Some(named) => {
            let secret = match client.fetch_wipe_one_time_secret_key(&named) {
                Ok(secret) => secret,
                Err(e) => {
                    return Err(e);
                },
            };
            Some(x25519_diffie_hellman(&secret, ephemeral_key))
        },
        None => None,
    };
    let key = derive(&dh1, &dh2, &dh3, dh4);
    assert(old(client).one_time_keys().remove(otk->Some_0@).dom().contains(otk->Some_0@) == false);
    Ok(key)
}

/// The receiver half.
///
/// Derives the session key from the client's own secrets and the keys that
/// the message carries, records it for `sender`, and opens the ciphertext
/// under it, bound to the two identity keys. Where the ciphertext does not
/// open, the session key of `sender` is forgotten again; a one-time key that
/// the message named stays consumed.
pub fn x3dh_initiate_recv<C: X3DHClient>(
    client: &mut C,
    sessions: &mut SessionKeys,
    sender: &String,
    sender_identity_key: &[u8; 32],
    ephemeral_key: &[u8; 32],
    one_time_key: Option<[u8; 32]>,
    ciphertext: &[u8],
) -> (result: Result<Vec<u8>, X3dhError>)
    requires
        old(client).valid(),
        old(sessions).valid(),
    ensures
        final(client).valid(),
        final(sessions).valid(),
        final(client).identity_secret() == old(client).identity_secret(),
        final(client).pre_key_secret() == old(client).pre_key_secret(),
        final(client).one_time_keys() == keys_after_receipt(
            old(client).one_time_keys(),
            sender_identity_key@,
            option_bytes(one_time_key),
        ),
        match receiver_refusal(
            old(client).one_time_keys(),
            sender_identity_key@,
            option_bytes(one_time_key),
        ) {
            Some(refusal) => result is Err && result->Err_0 == refusal && final(sessions)@ == old(sessions)@,
            None => ({
                let key = receiver_session_key(
                    old(client).identity_secret(),
                    old(client).pre_key_secret(),
                    sender_identity_key@,
                    ephemeral_key@,
                    named_secret(old(client).one_time_keys(), option_bytes(one_time_key)),
                )->Some_0;
                match open_framed(
                    key,
                    associated_data_spec(
                        sender_identity_key@,
                        ed25519_public_key(old(client).identity_secret()),
                    ),
                    ciphertext@,
                ) {
                    Some(plaintext) => result is Ok && result->Ok_0@ == plaintext
                        && final(sessions)@ == old(sessions)@.insert(sender@, key),
                    None => result is Err && result->Err_0 == X3dhError::DecryptFailed
                        && final(sessions)@ == old(sessions)@.remove(sender@),
                }
            }),
        },
        forall|
            sender_secret: Seq<u8>,
            ephemeral_secret: Seq<u8>,
            nonce: Seq<u8>,
            signature: Seq<u8>,
            plaintext: Seq<u8>,
        |
            ({
                let made = #[trigger] initial_message(
                    sender_secret,
                    ephemeral_secret,
                    nonce,
                    ed25519_public_key(old(client).identity_secret()),
                    x25519_public_key(old(client).pre_key_secret()),
                    signature,
                    option_bytes(one_time_key),
                    plaintext,
                );
                sender_secret.len() == 32 && ephemeral_secret.len() == 32 && nonce.len() == 12 && (
                one_time_key is Some ==> old(client).one_time_keys().dom().contains(
                    one_time_key->Some_0@,
                )) && made is Some && made->Some_0.1 == (MessageView {
                    sender_identity_key: sender_identity_key@,
                    ephemeral_key: ephemeral_key@,
                    otk: option_bytes(one_time_key),
                    ciphertext: ciphertext@,
                }) ==> result is Ok && result->Ok_0@ == plaintext
                    && final(sessions)@ == old(sessions)@.insert(sender@, made->Some_0.0)
            }),
{
    let identity_key = match client.get_identity_key() {
        Ok(key) => key,
        Err(e) => {
            return Err(e);
        },
    };
    let pre_key = match client.get_pre_key() {
        Ok(key) => key,
        Err(e) => {
            return Err(e);
        },
    };
    let secret_key = match x3dh_initiate_recv_sk(
        client,
        sender_identity_key,
        ephemeral_key,
        one_time_key,
        &identity_key,
        &pre_key,
    ) {
        Ok(key) => key,
        Err(e) => {
            return Err(e);
        },
    };
    let own_identity_key = ed25519_public(&identity_key);
    let aad = associated_data(sender_identity_key, &own_identity_key);
    sessions.set_session_key(sender.clone(), &secret_key);
    match decrypt_data(&secret_key, aad.as_slice(), ciphertext) {
        Ok(plaintext) => Ok(plaintext),
        Err(e) => {
            sessions.destroy_session_key(sender);
            assert(sessions@ =~= old(sessions)@.remove(sender@));
            Err(e)
        },
    }
}

} // verus!
