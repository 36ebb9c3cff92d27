use brongnal::aead::{decrypt_data, encrypt_data};
use brongnal::bundle::{create_prekey_bundle, encode_publics, sign_bundle, verify_bundle};
use brongnal::client::{MemoryClient, SessionKeys, X3DHClient};
use brongnal::error::X3dhError;
use brongnal::server::InMemoryServer;
use brongnal::x3dh::{
    associated_data, identity_key_of, kdf, pre_key_of, x3dh_initiate_recv, x3dh_initiate_recv_sk,
    x3dh_initiate_send, x3dh_initiate_send_sk, x3dh_initiate_send_sk_with,
    x3dh_initiate_send_with, PreKeyBundle, SignedPreKey, SignedPreKeys,
};
use rand_core::{OsRng, RngCore};

fn random_secret() -> [u8; 32] {
    let mut bytes = [0u8; 32];
    OsRng.fill_bytes(&mut bytes);
    bytes
}

fn signed_pre_key(signing_key: &[u8; 32], secret: &[u8; 32]) -> SignedPreKey {
    let public = pre_key_of(secret);
    SignedPreKey { pre_key: public, signature: sign_bundle(signing_key, &[(*secret, public)]) }
}

// 1. Bob publishes his identity key and prekeys to a server.
// 2. Alice fetches a "prekey bundle" from the server, and uses it to send an initial message to Bob.
// 3. Bob receives and processes Alice's initial message.
#[test]
fn x3dh_key_agreement() {
    let bob_ik = random_secret();
    let bob_spk = create_prekey_bundle(&bob_ik, 1);
    let bob_spk_secret = bob_spk.bundle[0].0;
    let bob_spk = SignedPreKey { pre_key: bob_spk.bundle[0].1, signature: bob_spk.signature };
    let otk = random_secret();
    let otk_pub = pre_key_of(&otk);
    let alice_ik = random_secret();
    let sent =
        x3dh_initiate_send_sk(&identity_key_of(&bob_ik), &bob_spk, Some(otk_pub), &alice_ik).unwrap();

    let mut bob = MemoryClient::from_secrets(bob_ik, bob_spk_secret);
    let published = bob.replenish_from_secrets(&[otk]);
    assert_eq!(published.pre_keys, vec![otk_pub]);
    let recv_sk = x3dh_initiate_recv_sk(
        &mut bob,
        &identity_key_of(&alice_ik),
        &sent.ephemeral_key,
        Some(otk_pub),
        &bob_ik,
        &bob_spk_secret,
    )
    .unwrap();
    assert_eq!(sent.secret_key, recv_sk);
}

#[test]
fn x3dh_send_recv() {
    let mut server = InMemoryServer::new();
    let bob_ik = random_secret();
    let plaintext = "Hello".to_string();
    let bob_spk = create_prekey_bundle(&bob_ik, 1);
    let bob_otks = create_prekey_bundle(&bob_ik, 100);
    let bob_signed_prekeys = SignedPreKeys {
        pre_keys: bob_otks.bundle.iter().map(|(_, public)| *public).collect(),
        signature: bob_otks.signature,
    };

    let alice_ik = random_secret();
    let mut alice_sessions = SessionKeys::new();

    let mut bob = MemoryClient::from_secrets(bob_ik, bob_spk.bundle[0].0);
    let bob_secrets: Vec<[u8; 32]> = bob_otks.bundle.iter().map(|(secret, _)| *secret).collect();
    bob.replenish_from_secrets(&bob_secrets);
    let mut bob_sessions = SessionKeys::new();
    assert_eq!(bob.one_time_key_count(), 100);

    // 1. Bob publishes his identity key and prekeys to a server.
    server
        .register(
            "Bob".to_string(),
            identity_key_of(&bob_ik),
            SignedPreKey { pre_key: bob_spk.bundle[0].1, signature: bob_spk.signature },
        )
        .unwrap();
    server.add_one_time_keys(&"Bob".to_owned(), bob_signed_prekeys).unwrap();

    // 2. Alice fetches a "prekey bundle" from the server, and uses it to send an initial message to Bob.
    let bundle = server.request_pre_keys(&"Bob".to_owned()).unwrap();
    assert_eq!(bundle.otk, Some(bob_otks.bundle[0].1));
    let message = x3dh_initiate_send(
        &mut alice_sessions,
        &"Bob".to_owned(),
        &bundle,
        &alice_ik,
        plaintext.as_bytes(),
    )
    .unwrap();

    server.send_message(&"Bob".to_owned(), message).unwrap();

    // 3. Bob receives and processes Alice's initial message.
    let x3dh_messages = server.retrieve_messages(&"Bob".to_owned());
    assert_eq!(x3dh_messages.len(), 1);
    let x3dh_message = &x3dh_messages[0];
    let decrypted = x3dh_initiate_recv(
        &mut bob,
        &mut bob_sessions,
        &"Alice".to_string(),
        &x3dh_message.sender_identity_key,
        &x3dh_message.ephemeral_key,
        x3dh_message.otk,
        &x3dh_message.ciphertext,
    )
    .unwrap();
    assert_ne!(plaintext.as_bytes(), &x3dh_message.ciphertext[..]);
    assert_eq!(plaintext, String::from_utf8(decrypted).unwrap());
    assert_eq!(
        alice_sessions.get_encryption_key(&"Bob".to_string()),
        bob_sessions.get_encryption_key(&"Alice".to_string())
    );
    assert!(bob_sessions.get_encryption_key(&"Alice".to_string()).is_some());
    assert_eq!(bob.one_time_key_count(), 99);
    assert!(server.retrieve_messages(&"Bob".to_owned()).is_empty());
}

#[test]
fn send_recv_without_one_time_key() {
    let mut server = InMemoryServer::new();
    let mut bob = MemoryClient::new();
    let bob_ik = bob.get_identity_key().unwrap();
    server
        .register("Bob".to_string(), identity_key_of(&bob_ik), bob.get_spk().unwrap())
        .unwrap();
    let bundle = server.request_pre_keys(&"Bob".to_string()).unwrap();
    assert_eq!(bundle.otk, None);

    let alice_ik = random_secret();
    let mut alice_sessions = SessionKeys::new();
    let message =
        x3dh_initiate_send(&mut alice_sessions, &"Bob".to_string(), &bundle, &alice_ik, b"hi")
            .unwrap();
    assert_eq!(message.otk, None);
    assert_eq!(message.sender_identity_key, identity_key_of(&alice_ik));

    let mut bob_sessions = SessionKeys::new();
    let decrypted = x3dh_initiate_recv(
        &mut bob,
        &mut bob_sessions,
        &"Alice".to_string(),
        &message.sender_identity_key,
        &message.ephemeral_key,
        message.otk,
        &message.ciphertext,
    )
    .unwrap();
    assert_eq!(decrypted, b"hi".to_vec());
    assert_eq!(bob.one_time_key_count(), 0);
    assert_eq!(
        alice_sessions.get_encryption_key(&"Bob".to_string()),
        bob_sessions.get_encryption_key(&"Alice".to_string())
    );
}

#[test]
fn tampered_ciphertext_is_rejected_and_key_stays_consumed() {
    let mut bob = MemoryClient::new();
    let bob_ik = bob.get_identity_key().unwrap();
    let published = bob.add_one_time_keys(3);
    assert_eq!(published.pre_keys.len(), 3);
    assert_eq!(bob.one_time_key_count(), 3);
    let bundle = PreKeyBundle {
        identity_key: identity_key_of(&bob_ik),
        otk: Some(published.pre_keys[1]),
        spk: bob.get_spk().unwrap(),
    };
    let alice_ik = random_secret();
    let mut alice_sessions = SessionKeys::new();
    let mut message =
        x3dh_initiate_send(&mut alice_sessions, &"Bob".to_string(), &bundle, &alice_ik, b"Hello")
            .unwrap();
    let last = message.ciphertext.len() - 1;
    message.ciphertext[last] ^= 1;

    let mut bob_sessions = SessionKeys::new();
    bob_sessions.set_session_key("Alice".to_string(), &[7u8; 32]);
    let result = x3dh_initiate_recv(
        &mut bob,
        &mut bob_sessions,
        &"Alice".to_string(),
        &message.sender_identity_key,
        &message.ephemeral_key,
        message.otk,
        &message.ciphertext,
    );
    assert_eq!(result, Err(X3dhError::DecryptFailed));
    assert_eq!(bob_sessions.get_encryption_key(&"Alice".to_string()), None);
    assert_eq!(bob.one_time_key_count(), 2);
    assert_eq!(
        bob.fetch_wipe_one_time_secret_key(&published.pre_keys[1]),
        Err(X3dhError::UnknownOneTimeKey)
    );
}

#[test]
fn bad_pre_key_signature_is_refused() {
    let bob = MemoryClient::new();
    let bob_ik = bob.get_identity_key().unwrap();
    let mut spk = bob.get_spk().unwrap();
    spk.signature[5] ^= 0x40;
    let bundle = PreKeyBundle { identity_key: identity_key_of(&bob_ik), otk: None, spk };
    let alice_ik = random_secret();
    let mut sessions = SessionKeys::new();
    let result = x3dh_initiate_send(&mut sessions, &"Bob".to_string(), &bundle, &alice_ik, b"hi");
    assert_eq!(result.err(), Some(X3dhError::BundleVerifyFailed));
    assert_eq!(sessions.get_encryption_key(&"Bob".to_string()), None);
    let sk = x3dh_initiate_send_sk(&bundle.identity_key, &bundle.spk, None, &alice_ik);
    assert_eq!(sk.err(), Some(X3dhError::BundleVerifyFailed));

    let mut server = InMemoryServer::new();
    assert_eq!(
        server.register("Bob".to_string(), bundle.identity_key, spk),
        Err(X3dhError::BundleVerifyFailed)
    );
    assert_eq!(
        server.request_pre_keys(&"Bob".to_string()).err(),
        Some(X3dhError::UnknownUser)
    );
}

#[test]
fn unknown_one_time_key_is_refused() {
    let mut bob = MemoryClient::new();
    let mut sessions = SessionKeys::new();
    let alice_ik = random_secret();
    let stranger = pre_key_of(&random_secret());
    let result = x3dh_initiate_recv(
        &mut bob,
        &mut sessions,
        &"Alice".to_string(),
        &identity_key_of(&alice_ik),
        &pre_key_of(&random_secret()),
        Some(stranger),
        &[0u8; 40],
    );
    assert_eq!(result, Err(X3dhError::UnknownOneTimeKey));
    assert_eq!(sessions.get_encryption_key(&"Alice".to_string()), None);
}

#[test]
fn one_time_key_is_consumed_once() {
    let mut bob = MemoryClient::from_secrets(random_secret(), random_secret());
    let secret = random_secret();
    let published = bob.replenish_from_secrets(&[secret]);
    let public = published.pre_keys[0];
    assert_eq!(public, pre_key_of(&secret));
    assert_eq!(bob.fetch_wipe_one_time_secret_key(&public), Ok(secret));
    assert_eq!(bob.fetch_wipe_one_time_secret_key(&public), Err(X3dhError::UnknownOneTimeKey));
    assert_eq!(bob.fetch_wipe_one_time_secret_key(&public), Err(X3dhError::UnknownOneTimeKey));
    assert_eq!(bob.one_time_key_count(), 0);
}

#[test]
fn kdf_matches_hkdf_sha256() {
    let km = [3u8; 96];
    let mut ikm = vec![0xFFu8; 32];
    ikm.extend_from_slice(&km);
    let mut expected = [0u8; 32];
    hkdf::Hkdf::<sha2::Sha256>::new(Some(&[0u8; 32]), &ikm)
        .expand(b"Brongnal", &mut expected)
        .unwrap();
    assert_eq!(kdf(&km), expected);
    assert_eq!(kdf(&km), kdf(&km));
    assert_ne!(kdf(&km), kdf(&[3u8; 128]));
}

#[test]
fn session_key_is_kdf_of_the_dh_results_in_order() {
    let alice_ik = random_secret();
    let bob_ik = random_secret();
    let spk_secret = random_secret();
    let otk_secret = random_secret();
    let ephemeral = random_secret();
    let spk = signed_pre_key(&bob_ik, &spk_secret);
    let otk = pre_key_of(&otk_secret);
    let sent = x3dh_initiate_send_sk_with(
        &identity_key_of(&bob_ik),
        &spk,
        Some(otk),
        &alice_ik,
        &ephemeral,
    )
    .unwrap();

    let alice = ed25519_dalek::SigningKey::from_bytes(&alice_ik);
    let bob = ed25519_dalek::SigningKey::from_bytes(&bob_ik);
    let eph = x25519_dalek::StaticSecret::from(ephemeral);
    let spk_pub = x25519_dalek::PublicKey::from(spk.pre_key);
    let dh1 = x25519_dalek::StaticSecret::from(alice.to_scalar_bytes()).diffie_hellman(&spk_pub);
    let dh2 = eph.diffie_hellman(&x25519_dalek::PublicKey::from(
        bob.verifying_key().to_montgomery().to_bytes(),
    ));
    let dh3 = eph.diffie_hellman(&spk_pub);
    let dh4 = eph.diffie_hellman(&x25519_dalek::PublicKey::from(otk));
    let km = [dh1.to_bytes(), dh2.to_bytes(), dh3.to_bytes(), dh4.to_bytes()].concat();
    assert_eq!(sent.secret_key, kdf(&km));
    assert_eq!(sent.ephemeral_key, x25519_dalek::PublicKey::from(&eph).to_bytes());
    assert_eq!(identity_key_of(&alice_ik), alice.verifying_key().to_bytes());

    let without = x3dh_initiate_send_sk_with(
        &identity_key_of(&bob_ik),
        &spk,
        None,
        &alice_ik,
        &ephemeral,
    )
    .unwrap();
    let km3 = [dh1.to_bytes(), dh2.to_bytes(), dh3.to_bytes()].concat();
    assert_eq!(without.secret_key, kdf(&km3));
}

#[test]
fn send_with_given_randomness_is_reproducible() {
    let alice_ik = random_secret();
    let bob_ik = random_secret();
    let spk_secret = random_secret();
    let bundle = PreKeyBundle {
        identity_key: identity_key_of(&bob_ik),
        otk: None,
        spk: signed_pre_key(&bob_ik, &spk_secret),
    };
    let ephemeral = [9u8; 32];
    let nonce = [1u8; 12];
    let mut first = SessionKeys::new();
    let mut second = SessionKeys::new();
    let a = x3dh_initiate_send_with(
        &mut first, &"Bob".to_string(), &bundle, &alice_ik, b"Hello", &ephemeral, &nonce,
    )
    .unwrap();
    let b = x3dh_initiate_send_with(
        &mut second, &"Bob".to_string(), &bundle, &alice_ik, b"Hello", &ephemeral, &nonce,
    )
    .unwrap();
    assert_eq!(a.ciphertext, b.ciphertext);
    assert_eq!(a.ephemeral_key, pre_key_of(&ephemeral));
    assert_eq!(&a.ciphertext[..12], &nonce[..]);
    assert_eq!(a.ciphertext.len(), 12 + 5 + 16);
    let key = first.get_encryption_key(&"Bob".to_string()).unwrap();
    let aad = associated_data(&identity_key_of(&alice_ik), &bundle.identity_key);
    assert_eq!(decrypt_data(&key, &aad, &a.ciphertext), Ok(b"Hello".to_vec()));

    let mut bob = MemoryClient::from_secrets(bob_ik, spk_secret);
    let mut bob_sessions = SessionKeys::new();
    let opened = x3dh_initiate_recv(
        &mut bob,
        &mut bob_sessions,
        &"Alice".to_string(),
        &a.sender_identity_key,
        &a.ephemeral_key,
        a.otk,
        &a.ciphertext,
    );
    assert_eq!(opened, Ok(b"Hello".to_vec()));
    assert_eq!(bob_sessions.get_encryption_key(&"Alice".to_string()), Some(key));
}

#[test]
fn framed_ciphertext_round_trip() {
    let key = [5u8; 32];
    let nonce = [2u8; 12];
    let sealed = encrypt_data(&key, &nonce, b"aad", b"payload").unwrap();
    assert_eq!(&sealed[..12], &nonce[..]);
    assert_eq!(sealed.len(), 12 + 7 + 16);
    assert_ne!(&sealed[12..19], b"payload");
    assert_eq!(decrypt_data(&key, b"aad", &sealed), Ok(b"payload".to_vec()));
    assert_eq!(decrypt_data(&key, b"other", &sealed), Err(X3dhError::DecryptFailed));
    assert_eq!(decrypt_data(&[6u8; 32], b"aad", &sealed), Err(X3dhError::DecryptFailed));
    assert_eq!(decrypt_data(&key, b"aad", &sealed[..11]), Err(X3dhError::DecryptFailed));
    assert_eq!(decrypt_data(&key, b"aad", &[]), Err(X3dhError::DecryptFailed));
}

#[test]
fn associated_data_is_sender_then_recipient() {
    let a = [1u8; 32];
    let b = [2u8; 32];
    let mut expected = vec![1u8; 32];
    expected.extend_from_slice(&[2u8; 32]);
    assert_eq!(associated_data(&a, &b), expected);
}

#[test]
fn bundle_signature_covers_the_keys_in_order() {
    let signing_key = random_secret();
    let identity_key = identity_key_of(&signing_key);
    let made = create_prekey_bundle(&signing_key, 3);
    assert_eq!(made.bundle.len(), 3);
    let publics: Vec<[u8; 32]> = made.bundle.iter().map(|(_, public)| *public).collect();
    for (secret, public) in made.bundle.iter() {
        assert_eq!(*public, pre_key_of(secret));
    }
    assert_eq!(encode_publics(&publics), publics.concat());
    assert_eq!(encode_publics(&[]), Vec::<u8>::new());
    assert_eq!(verify_bundle(&identity_key, &publics, &made.signature), Ok(()));
    assert_eq!(made.signature, sign_bundle(&signing_key, &made.bundle));

    let dalek_key = ed25519_dalek::VerifyingKey::from_bytes(&identity_key).unwrap();
    let dalek_signature = ed25519_dalek::Signature::from_bytes(&made.signature);
    assert!(ed25519_dalek::Verifier::verify(&dalek_key, &publics.concat(), &dalek_signature).is_ok());

    let reversed: Vec<[u8; 32]> = publics.iter().rev().cloned().collect();
    assert_eq!(
        verify_bundle(&identity_key, &reversed, &made.signature),
        Err(X3dhError::BundleVerifyFailed)
    );
    assert_eq!(
        verify_bundle(&identity_key, &publics[..2], &made.signature),
        Err(X3dhError::BundleVerifyFailed)
    );
    let other = identity_key_of(&random_secret());
    assert_eq!(
        verify_bundle(&other, &publics, &made.signature),
        Err(X3dhError::BundleVerifyFailed)
    );
    let empty = sign_bundle(&signing_key, &[]);
    assert_eq!(verify_bundle(&identity_key, &[], &empty), Err(X3dhError::BundleVerifyFailed));
}

#[test]
fn single_key_bundle_is_plain_ed25519() {
    let signing_key = random_secret();
    let client = MemoryClient::from_secrets(signing_key, random_secret());
    let spk = client.get_spk().unwrap();
    let dalek = ed25519_dalek::SigningKey::from_bytes(&signing_key);
    let expected = ed25519_dalek::Signer::sign(&dalek, &spk.pre_key).to_bytes();
    assert_eq!(spk.signature, expected);
    assert_eq!(
        verify_bundle(&identity_key_of(&signing_key), &[spk.pre_key], &spk.signature),
        Ok(())
    );
    let off_curve = [2u8; 32];
    if ed25519_dalek::VerifyingKey::from_bytes(&off_curve).is_err() {
        assert_eq!(
            verify_bundle(&off_curve, &[spk.pre_key], &spk.signature),
            Err(X3dhError::BundleVerifyFailed)
        );
    }
}

#[test]
fn session_keys_set_get_destroy() {
    let mut sessions = SessionKeys::new();
    assert_eq!(sessions.get_encryption_key(&"Bob".to_string()), None);
    sessions.set_session_key("Bob".to_string(), &[1u8; 32]);
    sessions.set_session_key("Carol".to_string(), &[2u8; 32]);
    sessions.set_session_key("Bob".to_string(), &[3u8; 32]);
    assert_eq!(sessions.get_encryption_key(&"Bob".to_string()), Some([3u8; 32]));
    assert_eq!(sessions.get_encryption_key(&"Carol".to_string()), Some([2u8; 32]));
    sessions.destroy_session_key(&"Bob".to_string());
    sessions.destroy_session_key(&"Dave".to_string());
    assert_eq!(sessions.get_encryption_key(&"Bob".to_string()), None);
    assert_eq!(sessions.get_encryption_key(&"Carol".to_string()), Some([2u8; 32]));
}

#[test]
fn error_messages_differ() {
    assert_eq!(X3dhError::UnknownUser.message(), "user not found");
    assert_eq!(X3dhError::DecryptFailed.message(), "decryption failed");
    assert_ne!(X3dhError::BundleVerifyFailed.message(), X3dhError::InvalidEncoding.message());
    assert_ne!(X3dhError::UnknownOneTimeKey.message(), X3dhError::EncryptFailed.message());
}

#[test]
fn identity_key_off_the_curve_is_refused() {
    let mut off_curve = None;
    for i in 0..=255u8 {
        let candidate = [i; 32];
        if ed25519_dalek::VerifyingKey::from_bytes(&candidate).is_err() {
            off_curve = Some(candidate);
            break;
        }
    }
    let off_curve = off_curve.unwrap();
    let mut bob = MemoryClient::from_secrets(random_secret(), random_secret());
    let published = bob.add_one_time_keys(1);
    let mut sessions = SessionKeys::new();
    let result = x3dh_initiate_recv(
        &mut bob,
        &mut sessions,
        &"Alice".to_string(),
        &off_curve,
        &pre_key_of(&random_secret()),
        Some(published.pre_keys[0]),
        &[0u8; 40],
    );
    assert_eq!(result, Err(X3dhError::InvalidEncoding));
    assert_eq!(bob.one_time_key_count(), 1);
    assert_eq!(sessions.get_encryption_key(&"Alice".to_string()), None);
    assert_eq!(X3dhError::InvalidEncoding.message(), "identity key is not a curve point");
}

#[test]
fn replenishing_keeps_what_was_there() {
    let mut bob = MemoryClient::new();
    let first = bob.add_one_time_keys(2);
    let second = bob.add_one_time_keys(3);
    assert_eq!(second.pre_keys.len(), 3);
    assert_eq!(bob.one_time_key_count(), 5);
    let identity_key = identity_key_of(&bob.get_identity_key().unwrap());
    assert_eq!(verify_bundle(&identity_key, &second.pre_keys, &second.signature), Ok(()));
    assert_eq!(bob.get_pre_key().unwrap().len(), 32);
    let secret = bob.fetch_wipe_one_time_secret_key(&first.pre_keys[1]).unwrap();
    assert_eq!(pre_key_of(&secret), first.pre_keys[1]);
    assert_eq!(bob.one_time_key_count(), 4);
    let again = bob.replenish_from_secrets(&[secret, secret]);
    assert_eq!(again.pre_keys, vec![first.pre_keys[1], first.pre_keys[1]]);
    assert_eq!(bob.one_time_key_count(), 5);
}

#[test]
fn prekey_under_an_off_curve_identity_key_does_not_verify() {
    let mut off_curve = None;
    for i in 0..=255u8 {
        let candidate = [i; 32];
        if ed25519_dalek::VerifyingKey::from_bytes(&candidate).is_err() {
            off_curve = Some(candidate);
            break;
        }
    }
    let off_curve = off_curve.unwrap();
    let bob_ik = random_secret();
    let spk = signed_pre_key(&bob_ik, &random_secret());
    let alice_ik = random_secret();
    let refused = x3dh_initiate_send_sk(&off_curve, &spk, None, &alice_ik);
    assert_eq!(refused.err(), Some(X3dhError::BundleVerifyFailed));
    let accepted = x3dh_initiate_send_sk(&identity_key_of(&bob_ik), &spk, None, &alice_ik);
    assert!(accepted.is_ok());

    let bundle = PreKeyBundle { identity_key: off_curve, otk: None, spk };
    let mut sessions = SessionKeys::new();
    let sent = x3dh_initiate_send(&mut sessions, &"Bob".to_string(), &bundle, &alice_ik, b"hi");
    assert_eq!(sent.err(), Some(X3dhError::BundleVerifyFailed));
    assert_eq!(sessions.get_encryption_key(&"Bob".to_string()), None);
}

#[test]
fn sending_on_a_verified_bundle_succeeds_and_records_the_session() {
    let bob = MemoryClient::new();
    let bundle = PreKeyBundle {
        identity_key: identity_key_of(&bob.get_identity_key().unwrap()),
        otk: None,
        spk: bob.get_spk().unwrap(),
    };
    let alice_ik = random_secret();
    let mut sessions = SessionKeys::new();
    let payload = vec![7u8; 100_000];
    let message =
        x3dh_initiate_send(&mut sessions, &"Bob".to_string(), &bundle, &alice_ik, &payload).unwrap();
    assert_eq!(message.sender_identity_key, identity_key_of(&alice_ik));
    assert_eq!(message.otk, None);
    assert_eq!(message.ciphertext.len(), 12 + payload.len() + 16);
    let key = sessions.get_encryption_key(&"Bob".to_string()).unwrap();
    let aad = associated_data(&message.sender_identity_key, &bundle.identity_key);
    assert_eq!(decrypt_data(&key, &aad, &message.ciphertext), Ok(payload));
    let empty =
        x3dh_initiate_send(&mut sessions, &"Bob".to_string(), &bundle, &alice_ik, b"").unwrap();
    assert_eq!(empty.ciphertext.len(), 12 + 16);
}
