use brongnal::client::{MemoryClient, X3DHClient};
use brongnal::error::X3dhError;
use brongnal::server::InMemoryServer;
use brongnal::x3dh::{identity_key_of, Message, SignedPreKey, SignedPreKeys};

fn name(text: &str) -> String {
    String::from(text)
}

fn sample_message(tag: u8) -> Message {
    Message {
        sender_identity_key: [tag; 32],
        ephemeral_key: [tag.wrapping_add(1); 32],
        otk: Some([tag.wrapping_add(2); 32]),
        ciphertext: b"ciphertext".to_vec(),
    }
}

fn same_message(a: &Message, b: &Message) -> bool {
    a.sender_identity_key == b.sender_identity_key
        && a.ephemeral_key == b.ephemeral_key
        && a.otk == b.otk
        && a.ciphertext == b.ciphertext
}

#[test]
fn add_user_get_keys() {
    let mut storage = InMemoryServer::new();
    let alice = MemoryClient::new();
    let alice_verifying_key = identity_key_of(&alice.get_identity_key().unwrap());
    let alice_spk = alice.get_spk().unwrap();
    assert_eq!(storage.register(String::from("alice"), alice_verifying_key, alice_spk), Ok(()));
    let (key, spk) = storage.get_current_keys(&name("alice")).unwrap();
    assert_eq!(key, alice_verifying_key);
    assert_eq!(spk.pre_key, alice_spk.pre_key);
    assert_eq!(spk.signature, alice_spk.signature);
}

#[test]
fn get_keys_not_found() {
    let storage = InMemoryServer::new();
    assert_eq!(storage.get_current_keys(&name("alice")).err(), Some(X3dhError::UnknownUser));
}

#[test]
fn pop_empty_one_time_keys() {
    let mut storage = InMemoryServer::new();
    assert_eq!(storage.pop_one_time_key(&name("bob")), None);
}

#[test]
fn retrieve_one_time_key() {
    let mut storage = InMemoryServer::new();
    let mut bob = MemoryClient::new();
    let published = bob.add_one_time_keys(1);
    let keys = published.pre_keys.clone();
    storage
        .register(
            String::from("bob"),
            identity_key_of(&bob.get_identity_key().unwrap()),
            bob.get_spk().unwrap(),
        )
        .unwrap();
    storage.add_one_time_keys(&name("bob"), published).unwrap();
    assert_eq!(storage.pop_one_time_key(&name("bob")), Some(keys[0]));
    assert_eq!(storage.pop_one_time_key(&name("bob")), None);
}

#[test]
fn updating_pre_key_not_found() {
    let mut storage = InMemoryServer::new();
    let spk = SignedPreKey { pre_key: [0u8; 32], signature: [0u8; 64] };
    assert_eq!(storage.update_pre_key(&name("bob"), spk).err(), Some(X3dhError::UnknownUser));
}

#[test]
fn update_pre_key_success() {
    let mut storage = InMemoryServer::new();
    let signing_key = [11u8; 32];
    let bob = MemoryClient::from_secrets(signing_key, [12u8; 32]);
    let bob_verifying_key = identity_key_of(&signing_key);
    let bob_spk = bob.get_spk().unwrap();
    storage.register(String::from("bob"), bob_verifying_key, bob_spk).unwrap();

    let rotated = MemoryClient::from_secrets(signing_key, [13u8; 32]).get_spk().unwrap();
    assert_ne!(rotated.pre_key, bob_spk.pre_key);
    storage.update_pre_key(&name("bob"), rotated).unwrap();

    let (key, spk) = storage.get_current_keys(&name("bob")).unwrap();
    assert_eq!(key, bob_verifying_key);
    assert_eq!(spk.pre_key, rotated.pre_key);
    assert_eq!(spk.signature, rotated.signature);
}

#[test]
fn update_pre_key_must_verify() {
    let mut storage = InMemoryServer::new();
    let bob = MemoryClient::from_secrets([11u8; 32], [12u8; 32]);
    let bob_spk = bob.get_spk().unwrap();
    storage.register(name("bob"), identity_key_of(&[11u8; 32]), bob_spk).unwrap();
    let forged = MemoryClient::from_secrets([14u8; 32], [13u8; 32]).get_spk().unwrap();
    assert_eq!(storage.update_pre_key(&name("bob"), forged), Err(X3dhError::BundleVerifyFailed));
    let (_, spk) = storage.get_current_keys(&name("bob")).unwrap();
    assert_eq!(spk.pre_key, bob_spk.pre_key);
}

#[test]
fn add_message_unknown_user() {
    let mut storage = InMemoryServer::new();
    assert_eq!(
        storage.send_message(&name("bob"), sample_message(0)).err(),
        Some(X3dhError::UnknownUser)
    );
    assert!(storage.retrieve_messages(&name("bob")).is_empty());
}

#[test]
fn add_get_message() {
    let mut storage = InMemoryServer::new();
    let bob = MemoryClient::new();
    let bob_verifying_key = identity_key_of(&bob.get_identity_key().unwrap());
    storage.register(String::from("bob"), bob_verifying_key, bob.get_spk().unwrap()).unwrap();

    let message = sample_message(40);
    storage.send_message(&name("bob"), message.duplicate()).unwrap();
    let got = storage.retrieve_messages(&name("bob"));
    assert_eq!(got.len(), 1);
    assert!(same_message(&got[0], &message));
}

#[test]
fn messages_come_in_order_and_only_once() {
    let mut storage = InMemoryServer::new();
    let bob = MemoryClient::new();
    let carol = MemoryClient::new();
    storage
        .register(name("bob"), identity_key_of(&bob.get_identity_key().unwrap()), bob.get_spk().unwrap())
        .unwrap();
    storage
        .register(
            name("carol"),
            identity_key_of(&carol.get_identity_key().unwrap()),
            carol.get_spk().unwrap(),
        )
        .unwrap();
    storage.send_message(&name("bob"), sample_message(1)).unwrap();
    storage.send_message(&name("carol"), sample_message(2)).unwrap();
    storage.send_message(&name("bob"), sample_message(3)).unwrap();
    let got = storage.retrieve_messages(&name("bob"));
    assert_eq!(got.len(), 2);
    assert!(same_message(&got[0], &sample_message(1)));
    assert!(same_message(&got[1], &sample_message(3)));
    assert!(storage.retrieve_messages(&name("bob")).is_empty());
    let for_carol = storage.retrieve_messages(&name("carol"));
    assert_eq!(for_carol.len(), 1);
    assert!(same_message(&for_carol[0], &sample_message(2)));
}

#[test]
fn one_time_keys_leave_in_the_order_published() {
    let mut storage = InMemoryServer::new();
    let mut bob = MemoryClient::new();
    storage
        .register(name("bob"), identity_key_of(&bob.get_identity_key().unwrap()), bob.get_spk().unwrap())
        .unwrap();
    let first = bob.add_one_time_keys(3);
    let second = bob.add_one_time_keys(2);
    let mut expected = first.pre_keys.clone();
    expected.extend_from_slice(&second.pre_keys);
    storage.add_one_time_keys(&name("bob"), first).unwrap();
    storage.add_one_time_keys(&name("bob"), second).unwrap();
    let spk = bob.get_spk().unwrap();
    let mut handed_out = Vec::new();
    for _ in 0..5 {
        let bundle = storage.request_pre_keys(&name("bob")).unwrap();
        assert_eq!(bundle.spk.pre_key, spk.pre_key);
        handed_out.push(bundle.otk.unwrap());
    }
    assert_eq!(handed_out, expected);
    for i in 0..5 {
        for j in (i + 1)..5 {
            assert_ne!(handed_out[i], handed_out[j]);
        }
    }
    assert_eq!(storage.request_pre_keys(&name("bob")).unwrap().otk, None);
}

#[test]
fn one_time_keys_need_a_known_user_and_a_valid_signature() {
    let mut storage = InMemoryServer::new();
    let mut bob = MemoryClient::new();
    let published = bob.add_one_time_keys(2);
    let copy = SignedPreKeys { pre_keys: published.pre_keys.clone(), signature: published.signature };
    assert_eq!(storage.add_one_time_keys(&name("bob"), copy), Err(X3dhError::UnknownUser));
    storage
        .register(name("bob"), identity_key_of(&bob.get_identity_key().unwrap()), bob.get_spk().unwrap())
        .unwrap();
    let mut swapped = published.pre_keys.clone();
    swapped.swap(0, 1);
    let bad = SignedPreKeys { pre_keys: swapped, signature: published.signature };
    assert_eq!(storage.add_one_time_keys(&name("bob"), bad), Err(X3dhError::BundleVerifyFailed));
    let empty = SignedPreKeys { pre_keys: Vec::new(), signature: published.signature };
    assert_eq!(storage.add_one_time_keys(&name("bob"), empty), Err(X3dhError::BundleVerifyFailed));
    assert_eq!(storage.pop_one_time_key(&name("bob")), None);
    assert_eq!(storage.add_one_time_keys(&name("bob"), published), Ok(()));
}

#[test]
fn registering_twice_keeps_the_first_identity_key() {
    let mut storage = InMemoryServer::new();
    let bob = MemoryClient::new();
    let other = MemoryClient::new();
    let bob_key = identity_key_of(&bob.get_identity_key().unwrap());
    storage.register(name("bob"), bob_key, bob.get_spk().unwrap()).unwrap();
    let again = storage.register(
        name("bob"),
        identity_key_of(&other.get_identity_key().unwrap()),
        other.get_spk().unwrap(),
    );
    assert_eq!(again, Ok(()));
    let (key, spk) = storage.get_current_keys(&name("bob")).unwrap();
    assert_eq!(key, bob_key);
    assert_eq!(spk.pre_key, bob.get_spk().unwrap().pre_key);
    assert_eq!(storage.request_pre_keys(&name("carol")).err(), Some(X3dhError::UnknownUser));
}
