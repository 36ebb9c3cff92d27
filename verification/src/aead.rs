//! The framing of the first message's ciphertext: a 12-byte nonce, then the
//! ChaCha20-Poly1305 ciphertext with its trailing tag.

use crate::error::X3dhError;
use crate::primitives::{
    chacha20poly1305_decrypt, chacha20poly1305_encrypt, chacha20poly1305_open,
    chacha20poly1305_seal, option_vec_bytes, within_block_limit,
};
use vstd::prelude::*;

verus! {

/// The length of the nonce that leads a framed ciphertext.
pub const NONCE_LEN: usize = 12;

/// The framed ciphertext of `plaintext`: the nonce, then what the cipher
/// made of the plaintext under `key`, that nonce and `aad`.
pub open spec fn seal_framed(key: Seq<u8>, nonce: Seq<u8>, aad: Seq<u8>, plaintext: Seq<u8>) -> Option<
    Seq<u8>,
> {
    match chacha20poly1305_seal(key, nonce, aad, plaintext) {
        Some(sealed) => Some(nonce + sealed),
        None => None,
    }
}

/// The plaintext of a framed ciphertext: what the cipher opens, under `key`,
/// the leading 12 bytes as nonce and `aad`, from the bytes that follow. A
/// ciphertext too short to hold a nonce opens to nothing.
pub open spec fn open_framed(key: Seq<u8>, aad: Seq<u8>, ciphertext: Seq<u8>) -> Option<Seq<u8>> {
    if ciphertext.len() < 12 {
        None
    } else {
        chacha20poly1305_open(
            key,
            ciphertext.subrange(0, 12),
            aad,
            ciphertext.subrange(12, ciphertext.len() as int),
        )
    }
}

/// A copy of the bytes of `bytes` from `from` up to `to`.
pub fn copy_range(bytes: &[u8], from: usize, to: usize) -> (copy: Vec<u8>)
    requires
        from <= to <= bytes@.len(),
    ensures
        copy@ == bytes@.subrange(from as int, to as int),
{
    let mut copy: Vec<u8> = Vec::new();
    let mut i: usize = from;
    while i < to
        invariant
            from <= i <= to <= bytes@.len(),
            copy@ == bytes@.subrange(from as int, i as int),
        decreases to - i,
    {
        copy.push(bytes[i]);
        assert(copy@ =~= bytes@.subrange(from as int, i as int + 1));
        i = i + 1;
    }
    assert(copy@ =~= bytes@.subrange(from as int, to as int));
    copy
}

/// Seals `plaintext` under `key` with `nonce`, binding `aad`, and frames the
/// result behind the nonce. `None` exactly where the plaintext is beyond the
/// cipher's block limit.
pub fn encrypt_data(key: &[u8; 32], nonce: &[u8; 12], aad: &[u8], plaintext: &[u8]) -> (ciphertext:
    Option<Vec<u8>>)
    ensures
        option_vec_bytes(ciphertext) == seal_framed(key@, nonce@, aad@, plaintext@),
        ciphertext is Some <==> within_block_limit(plaintext@),
        ciphertext matches Some(bytes) ==> open_framed(key@, aad@, bytes@) == Some(plaintext@),
{
    match chacha20poly1305_encrypt(key, nonce, aad, plaintext) {
        Some(sealed) => {
            let mut framed = copy_range(nonce.as_slice(), 0, NONCE_LEN);
            assert(framed@ =~= nonce@);
            framed.extend_from_slice(sealed.as_slice());
            assert(framed@.subrange(0, 12) =~= nonce@);
            assert(framed@.subrange(12, framed@.len() as int) =~= sealed@);
            Some(framed)
        },
        None => None,
    }
}

/// Opens a framed ciphertext under `key` and `aad`. Fails where the
/// ciphertext is too short to hold a nonce or the cipher does not
/// authenticate it.
pub fn decrypt_data(key: &[u8; 32], aad: &[u8], ciphertext: &[u8]) -> (plaintext: Result<
    Vec<u8>,
    X3dhError,
>)
    ensures
        match open_framed(key@, aad@, ciphertext@) {
            Some(bytes) => plaintext is Ok && plaintext->Ok_0@ == bytes,
            None => plaintext == Err::<Vec<u8>, X3dhError>(X3dhError::DecryptFailed),
        },
        forall|nonce: Seq<u8>, clear: Seq<u8>|
            nonce.len() == 12 && (#[trigger] seal_framed(key@, nonce, aad@, clear)) == Some(
                ciphertext@,
            ) ==> plaintext is Ok && plaintext->Ok_0@ == clear,
{
    if ciphertext.len() < NONCE_LEN {
        assert forall|nonce: Seq<u8>, clear: Seq<u8>|
            nonce.len() == 12 && (#[trigger] seal_framed(key@, nonce, aad@, clear)) == Some(
                ciphertext@,
            ) implies false by {
            let sealed = chacha20poly1305_seal(key@, nonce, aad@, clear)->Some_0;
            assert((nonce + sealed).len() >= 12);
        }
        return Err(X3dhError::DecryptFailed);
    }
    let nonce = copy_range(ciphertext, 0, NONCE_LEN);
    let sealed = copy_range(ciphertext, NONCE_LEN, ciphertext.len());
    let opened = chacha20poly1305_decrypt(key, nonce.as_slice(), aad, sealed.as_slice());
    assert forall|n: Seq<u8>, clear: Seq<u8>|
        n.len() == 12 && (#[trigger] seal_framed(key@, n, aad@, clear)) == Some(
            ciphertext@,
        ) implies option_vec_bytes(opened) == Some(clear) by {
        let s = chacha20poly1305_seal(key@, n, aad@, clear)->Some_0;
        assert((n + s).subrange(0, 12) =~= n);
        assert((n + s).subrange(12, (n + s).len() as int) =~= s);
    }
    match opened {
        Some(bytes) => Ok(bytes),
        None => Err(X3dhError::DecryptFailed),
    }
}

} // verus!
