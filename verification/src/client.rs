//! The client's key material: the identity signing key, the signed prekey,
//! the secrets of the one-time prekeys that are still unused, and the session
//! keys agreed with each peer.

use crate::assoc::{
    distinct_keys, key_absent, lemma_absent, lemma_entry_count, lemma_present, lemma_push,
    lemma_remove, lemma_update, to_map,
};
use crate::bundle::{bundle_verifies, encode, encode_publics, key_bytes, lemma_encode_single};
use crate::error::X3dhError;
use crate::primitives::{
    ed25519_public_key, ed25519_sign, ed25519_signature, ed25519_verifies, option_bytes,
    random_bytes, x25519_public, x25519_public_key,
};
use crate::x3dh::{SignedPreKey, SignedPreKeys};
use vstd::prelude::*;

verus! {

/// Whether two 32-byte values hold the same bytes.
pub fn same_bytes(a: &[u8; 32], b: &[u8; 32]) -> (same: bool)
    ensures
        same == (a@ == b@),
{
    let mut i: usize = 0;
    while i < 32
        invariant
            i <= 32,
            forall|j: int| 0 <= j < i ==> a@[j] == b@[j],
        decreases 32 - i,
    {
        if a[i] != b[i] {
            return false;
        }
        i = i + 1;
    }
    assert(a@ =~= b@);
    true
}

/// The session key agreed with each peer, by the peer's identity.
pub struct SessionKeys {
    session_keys: Vec<(String, [u8; 32])>,
}

impl View for SessionKeys {
    type V = Map<Seq<char>, Seq<u8>>;

    /// The session key of each peer that has one.
    closed spec fn view(&self) -> Map<Seq<char>, Seq<u8>> {
        to_map(self.entries())
    }
}

impl SessionKeys {
    closed spec fn entries(&self) -> Seq<(Seq<char>, Seq<u8>)> {
        Seq::new(
            self.session_keys@.len(),
            |i: int| (self.session_keys@[i].0@, self.session_keys@[i].1@),
        )
    }

    /// No peer is listed twice.
    pub closed spec fn valid(&self) -> bool {
        distinct_keys(self.entries())
    }

    /// A table without any session.
    pub fn new() -> (table: Self)
        ensures
            table.valid(),
            table@ == Map::<Seq<char>, Seq<u8>>::empty(),
    {
        let table = SessionKeys { session_keys: Vec::new() };
        assert(table.entries() =~= Seq::empty());
        table
    }

    fn position(&self, peer: &String) -> (found: Option<usize>)
        ensures
            match found {
                Some(i) => i < self.entries().len() && self.entries()[i as int].0 == peer@,
                None => key_absent(self.entries(), peer@),
            },
    {
        let mut i: usize = 0;
        while i < self.session_keys.len()
            invariant
                i <= self.session_keys@.len(),
                forall|j: int| 0 <= j < i ==> (#[trigger] self.entries()[j]).0 != peer@,
            decreases self.session_keys@.len() - i,
        {
            if self.session_keys[i].0 == *peer {
                return Some(i);
            }
            i = i + 1;
        }
        None
    }

    /// Records `secret_key` as the session key of `recipient_identity`,
    /// in place of an earlier one.
    pub fn set_session_key(&mut self, recipient_identity: String, secret_key: &[u8; 32])
        requires
            old(self).valid(),
        ensures
            final(self).valid(),
            final(self)@ == old(self)@.insert(recipient_identity@, secret_key@),
    {
        let ghost before = self.entries();
        match self.position(&recipient_identity) {
            Some(i) => {
                proof {
                    lemma_update(before, i as int, secret_key@);
                }
                self.session_keys.set(i, (recipient_identity, *secret_key));
                assert(self.entries() =~= before.update(i as int, (before[i as int].0, secret_key@)));
            },
            None => {
                proof {
                    lemma_push(before, recipient_identity@, secret_key@);
                }
                self.session_keys.push((recipient_identity, *secret_key));
                assert(self.entries() =~= before.push((recipient_identity@, secret_key@)));
            },
        }
    }

    /// The key under which messages to and from `recipient_identity` are
    /// sealed, where a session exists.
    pub fn get_encryption_key(&self, recipient_identity: &String) -> (key: Option<[u8; 32]>)
        requires
            self.valid(),
        ensures
            option_bytes(key) == (if self@.dom().contains(recipient_identity@) {
                Some(self@[recipient_identity@])
            } else {
                None
            }),
    {
        match self.position(recipient_identity) {
            Some(i) => {
                proof {
                    lemma_present(self.entries(), i as int);
                }
                Some(self.session_keys[i].1)
            },
            None => {
                proof {
                    lemma_absent(self.entries(), recipient_identity@);
                }
                None
            },
        }
    }

    /// Forgets the session key of `peer`, if there is one.
    pub fn destroy_session_key(&mut self, peer: &String)
        requires
            old(self).valid(),
        ensures
            final(self).valid(),
            final(self)@ == old(self)@.remove(peer@),
    {
        let ghost before = self.entries();
        match self.position(peer) {
            Some(i) => {
                proof {
                    lemma_remove(before, i as int);
                }
                let _ = self.session_keys.remove(i);
                assert(self.entries() =~= before.remove(i as int));
            },
            None => {
                proof {
                    lemma_absent(before, peer@);
                }
                assert(self@ =~= old(self)@.remove(peer@));
            },
        }
    }
}

/// What a client must offer to take part in a key agreement: its two
/// long-lived secrets, and a store of one-time keys from which a key can be
/// taken once.
pub trait X3DHClient {
    /// The state is well formed.
    spec fn valid(&self) -> bool;

    /// The identity signing key.
    spec fn identity_secret(&self) -> Seq<u8>;

    /// The secret of the signed prekey.
    spec fn pre_key_secret(&self) -> Seq<u8>;

    /// The one-time keys that were made and not yet used: public key to
    /// secret.
    spec fn one_time_keys(&self) -> Map<Seq<u8>, Seq<u8>>;

    /// Hands out the secret of the one-time key `one_time_key` and forgets
    /// it, so that no later call finds it.
    fn fetch_wipe_one_time_secret_key(&mut self, one_time_key: &[u8; 32]) -> (secret: Result<
        [u8; 32],
        X3dhError,
    >)
        requires
            old(self).valid(),
        ensures
            final(self).valid(),
            final(self).identity_secret() == old(self).identity_secret(),
            final(self).pre_key_secret() == old(self).pre_key_secret(),
            final(self).one_time_keys() == after_consume(old(self).one_time_keys(), one_time_key@),
            match consume_result(old(self).one_time_keys(), one_time_key@) {
                Some(kept) => secret is Ok && secret->Ok_0@ == kept && one_time_key@
                    == x25519_public_key(kept),
                None => secret is Err && secret->Err_0 == X3dhError::UnknownOneTimeKey,
            },
    ;

    /// The identity signing key.
    fn get_identity_key(&self) -> (key: Result<[u8; 32], X3dhError>)
        requires
            self.valid(),
        ensures
            key is Ok,
            key->Ok_0@ == self.identity_secret(),
    ;

    /// The secret of the signed prekey.
    fn get_pre_key(&mut self) -> (key: Result<[u8; 32], X3dhError>)
        requires
            old(self).valid(),
        ensures
            final(self).valid(),
            key is Ok,
            key->Ok_0@ == old(self).pre_key_secret(),
            final(self).identity_secret() == old(self).identity_secret(),
            final(self).pre_key_secret() == old(self).pre_key_secret(),
            final(self).one_time_keys() == old(self).one_time_keys(),
    ;

    /// The signed prekey: its public half, signed with the identity key.
    fn get_spk(&self) -> (spk: Result<SignedPreKey, X3dhError>)
        requires
            self.valid(),
        ensures
            spk is Ok,
            spk->Ok_0.pre_key@ == x25519_public_key(self.pre_key_secret()),
            spk->Ok_0.signature@ == ed25519_signature(
                self.identity_secret(),
                x25519_public_key(self.pre_key_secret()),
            ),
            bundle_verifies(
                ed25519_public_key(self.identity_secret()),
                seq![spk->Ok_0.pre_key@],
                spk->Ok_0.signature@,
            ),
    ;

    /// Makes `num_keys` new one-time keys, keeps their secrets, and returns
    /// their public halves, signed.
    fn add_one_time_keys(&mut self, num_keys: u32) -> (published: SignedPreKeys)
        requires
            old(self).valid(),
        ensures
            final(self).valid(),
            final(self).identity_secret() == old(self).identity_secret(),
            final(self).pre_key_secret() == old(self).pre_key_secret(),
            published.pre_keys@.len() == num_keys,
            exists|secrets: Seq<Seq<u8>>|
                {
                    &&& secrets.len() == num_keys
                    &&& forall|i: int|
                        0 <= i < num_keys ==> (#[trigger] secrets[i]).len() == 32
                            && published.pre_keys@[i]@ == x25519_public_key(secrets[i])
                    &&& final(self).one_time_keys() == #[trigger] with_secrets(
                        old(self).one_time_keys(),
                        secrets,
                    )
                },
            published.signature@ == ed25519_signature(
                old(self).identity_secret(),
                encode(key_bytes(published.pre_keys@)),
            ),
            ed25519_verifies(
                ed25519_public_key(old(self).identity_secret()),
                encode(key_bytes(published.pre_keys@)),
                published.signature@,
            ),
    ;
}

/// A client that keeps its keys in memory.
pub struct MemoryClient {
    identity_key: [u8; 32],
    pre_key: [u8; 32],
    one_time_pre_keys: Vec<([u8; 32], [u8; 32])>,
}

/// The map `keys` after the secrets of `secrets` were added, in listed order,
/// each under its public key.
pub open spec fn with_secrets(keys: Map<Seq<u8>, Seq<u8>>, secrets: Seq<Seq<u8>>) -> Map<
    Seq<u8>,
    Seq<u8>,
>
    decreases secrets.len(),
{
    if secrets.len() == 0 {
        keys
    } else {
        with_secrets(keys, secrets.drop_last()).insert(
            x25519_public_key(secrets.last()),
            secrets.last(),
        )
    }
}

/// What consuming the one-time key `public` hands out: its secret, where the
/// store has one.
pub open spec fn consume_result(keys: Map<Seq<u8>, Seq<u8>>, public: Seq<u8>) -> Option<Seq<u8>> {
    if keys.dom().contains(public) {
        Some(keys[public])
    } else {
        None
    }
}

/// The store after the one-time key `public` was consumed.
pub open spec fn after_consume(keys: Map<Seq<u8>, Seq<u8>>, public: Seq<u8>) -> Map<
    Seq<u8>,
    Seq<u8>,
> {
    keys.remove(public)
}

/// What can happen to the store of one-time keys: a key is consumed, or a
/// secret is kept under its public key.
pub enum StoreStep {
    Consume { public: Seq<u8> },
    Keep { secret: Seq<u8> },
}

/// The store after each step of `steps`, in listed order.
pub open spec fn after_steps(keys: Map<Seq<u8>, Seq<u8>>, steps: Seq<StoreStep>) -> Map<
    Seq<u8>,
    Seq<u8>,
>
    decreases steps.len(),
{
    if steps.len() == 0 {
        keys
    } else {
        let before = after_steps(keys, steps.drop_last());
        match steps.last() {
            StoreStep::Consume { public } => after_consume(before, public),
            StoreStep::Keep { secret } => before.insert(x25519_public_key(secret), secret),
        }
    }
}

/// A one-time key is handed out at most once: whatever the first attempt to
/// consume it gave, every later attempt finds nothing, whatever was consumed
/// or kept in between, as long as the same key was not made anew; and
/// consuming one key takes no other key away.
pub proof fn lemma_consume_at_most_once(
    keys: Map<Seq<u8>, Seq<u8>>,
    public: Seq<u8>,
    between: Seq<StoreStep>,
)
    requires
        forall|i: int|
            0 <= i < between.len() && (#[trigger] between[i]) is Keep ==> x25519_public_key(
                between[i]->secret,
            ) != public,
    ensures
        consume_result(after_steps(after_consume(keys, public), between), public) is None,
        forall|other: Seq<u8>|
            other != public ==> #[trigger] consume_result(after_consume(keys, public), other)
                == consume_result(keys, other),
    decreases between.len(),
{
    if between.len() > 0 {
        let front = between.drop_last();
        assert forall|i: int| 0 <= i < front.len() && (#[trigger] front[i]) is Keep implies x25519_public_key(
            front[i]->secret,
        ) != public by {
            assert(front[i] == between[i]);
        }
        lemma_consume_at_most_once(keys, public, front);
        assert(between.last() == between[between.len() - 1]);
    }
}

/// Keeping a list of secrets is one `Keep` step for each, in listed order.
pub proof fn lemma_with_secrets_as_steps(keys: Map<Seq<u8>, Seq<u8>>, secrets: Seq<Seq<u8>>)
    ensures
        with_secrets(keys, secrets) == after_steps(
            keys,
            Seq::new(secrets.len(), |i: int| StoreStep::Keep { secret: secrets[i] }),
        ),
    decreases secrets.len(),
{
    let steps = Seq::new(secrets.len(), |i: int| StoreStep::Keep { secret: secrets[i] });
    if secrets.len() > 0 {
        let front = secrets.drop_last();
        lemma_with_secrets_as_steps(keys, front);
        assert(steps.drop_last() =~= Seq::new(
            front.len(),
            |i: int| StoreStep::Keep { secret: front[i] },
        ));
        assert(steps.last() == StoreStep::Keep { secret: secrets.last() });
    }
}

/// Every key of the map is the public key of the secret filed under it.
pub open spec fn keys_match(keys: Map<Seq<u8>, Seq<u8>>) -> bool {
    forall|public: Seq<u8>| #[trigger]
        keys.dom().contains(public) ==> public == x25519_public_key(keys[public])
}

impl Default for MemoryClient {
    /// A client with fresh keys, as `MemoryClient::new` makes it.
    fn default() -> (client: Self)
        ensures
            client.well_formed(),
            client.one_time_keys() == Map::<Seq<u8>, Seq<u8>>::empty(),
    {
        Self::new()
    }
}

impl MemoryClient {
    closed spec fn entries(&self) -> Seq<(Seq<u8>, Seq<u8>)> {
        Seq::new(
            self.one_time_pre_keys@.len(),
            |i: int| (self.one_time_pre_keys@[i].0@, self.one_time_pre_keys@[i].1@),
        )
    }

    /// No one-time key is listed twice, and each is filed under the public
    /// key of its secret.
    pub closed spec fn well_formed(&self) -> bool {
        &&& distinct_keys(self.entries())
        &&& keys_match(self.one_time_keys())
    }

    /// A client with a fresh identity key, a fresh prekey and no one-time
    /// keys, from the operating system's generator.
    pub fn new() -> (client: Self)
        ensures
            client.well_formed(),
            client.one_time_keys() == Map::<Seq<u8>, Seq<u8>>::empty(),
    {
        let identity_key: [u8; 32] = random_bytes();
        let pre_key: [u8; 32] = random_bytes();
        Self::from_secrets(identity_key, pre_key)
    }

    /// A client with the given identity key and prekey secret and no
    /// one-time keys.
    pub fn from_secrets(identity_key: [u8; 32], pre_key: [u8; 32]) -> (client: Self)
        ensures
            client.well_formed(),
            client.identity_secret() == identity_key@,
            client.pre_key_secret() == pre_key@,
            client.one_time_keys() == Map::<Seq<u8>, Seq<u8>>::empty(),
    {
        let client = MemoryClient { identity_key, pre_key, one_time_pre_keys: Vec::new() };
        assert(client.entries() =~= Seq::empty());
        client
    }

    /// The number of one-time keys that are still unused.
    pub fn one_time_key_count(&self) -> (count: usize)
        requires
            self.well_formed(),
        ensures
            count == self.one_time_keys().dom().len(),
            self.one_time_keys().dom().finite(),
    {
        proof {
            lemma_entry_count(self.entries());
        }
        self.one_time_pre_keys.len()
    }

    fn position(&self, one_time_key: &[u8; 32]) -> (found: Option<usize>)
        ensures
            match found {
                Some(i) => i < self.entries().len() && self.entries()[i as int].0 == one_time_key@,
                None => key_absent(self.entries(), one_time_key@),
            },
    {
        let mut i: usize = 0;
        while i < self.one_time_pre_keys.len()
            invariant
                i <= self.one_time_pre_keys@.len(),
                forall|j: int| 0 <= j < i ==> (#[trigger] self.entries()[j]).0 != one_time_key@,
            decreases self.one_time_pre_keys@.len() - i,
        {
            if same_bytes(&self.one_time_pre_keys[i].0, one_time_key) {
                return Some(i);
            }
            i = i + 1;
        }
        None
    }

    /// Files `secret` under its public key, in place of an earlier entry of
    /// that key, and returns the public key.
    fn keep_secret(&mut self, secret: &[u8; 32]) -> (public: [u8; 32])
        requires
            old(self).well_formed(),
        ensures
            final(self).well_formed(),
            public@ == x25519_public_key(secret@),
            final(self).one_time_keys() == old(self).one_time_keys().insert(public@, secret@),
            final(self).identity_secret() == old(self).identity_secret(),
            final(self).pre_key_secret() == old(self).pre_key_secret(),
    {
        let public = x25519_public(secret);
        let ghost before = self.entries();
        match self.position(&public) {
            Some(i) => {
                proof {
                    lemma_update(before, i as int, secret@);
                }
                self.one_time_pre_keys.set(i, (public, *secret));
                assert(self.entries() =~= before.update(i as int, (before[i as int].0, secret@)));
            },
            None => {
                proof {
                    lemma_push(before, public@, secret@);
                }
                self.one_time_pre_keys.push((public, *secret));
                assert(self.entries() =~= before.push((public@, secret@)));
            },
        }
        public
    }

    /// Keeps the given secrets as one-time keys and returns their public
    /// halves, in the order given, signed with the identity key.
    pub fn replenish_from_secrets(&mut self, secrets: &[[u8; 32]]) -> (published: SignedPreKeys)
        requires
            old(self).well_formed(),
        ensures
            final(self).well_formed(),
            final(self).identity_secret() == old(self).identity_secret(),
            final(self).pre_key_secret() == old(self).pre_key_secret(),
            final(self).one_time_keys() == with_secrets(
                old(self).one_time_keys(),
                key_bytes(secrets@),
            ),
            published.pre_keys@.len() == secrets@.len(),
            forall|i: int|
                0 <= i < secrets@.len() ==> (#[trigger] published.pre_keys@[i])@
                    == x25519_public_key(secrets@[i]@),
            published.signature@ == ed25519_signature(
                old(self).identity_secret(),
                encode(key_bytes(published.pre_keys@)),
            ),
            ed25519_verifies(
                ed25519_public_key(old(self).identity_secret()),
                encode(key_bytes(published.pre_keys@)),
                published.signature@,
            ),
    {
        let mut pre_keys: Vec<[u8; 32]> = Vec::new();
        let mut i: usize = 0;
        while i < secrets.len()
            invariant
                i <= secrets.len(),
                pre_keys@.len() == i,
                self.well_formed(),
                self.identity_secret() == old(self).identity_secret(),
                self.pre_key_secret() == old(self).pre_key_secret(),
                self.one_time_keys() == with_secrets(
                    old(self).one_time_keys(),
                    key_bytes(secrets@).take(i as int),
                ),
                forall|j: int|
                    0 <= j < i ==> (#[trigger] pre_keys@[j])@ == x25519_public_key(secrets@[j]@),
            decreases secrets.len() - i,
        {
            proof {
                let all = key_bytes(secrets@);
                assert(all.take(i as int + 1).drop_last() =~= all.take(i as int));
            }
            let public = self.keep_secret(&secrets[i]);
            pre_keys.push(public);
            i = i + 1;
        }
        proof {
            let all = key_bytes(secrets@);
            assert(all.take(i as int) =~= all);
        }
        let bytes = encode_publics(pre_keys.as_slice());
        let signature = ed25519_sign(&self.identity_key, bytes.as_slice());
        SignedPreKeys { pre_keys, signature }
    }
}

impl X3DHClient for MemoryClient {
    open spec fn valid(&self) -> bool {
        self.well_formed()
    }

    closed spec fn identity_secret(&self) -> Seq<u8> {
        self.identity_key@
    }

    closed spec fn pre_key_secret(&self) -> Seq<u8> {
        self.pre_key@
    }

    closed spec fn one_time_keys(&self) -> Map<Seq<u8>, Seq<u8>> {
        to_map(self.entries())
    }

    fn fetch_wipe_one_time_secret_key(&mut self, one_time_key: &[u8; 32]) -> (secret: Result<
        [u8; 32],
        X3dhError,
    >)
    {
        let ghost before = self.entries();
        match self.position(one_time_key) {
            Some(i) => {
                proof {
                    lemma_present(before, i as int);
                    lemma_remove(before, i as int);
                }
                let entry = self.one_time_pre_keys.remove(i);
                assert(self.entries() =~= before.remove(i as int));
                Ok(entry.1)
            },
            None => {
                proof {
                    lemma_absent(before, one_time_key@);
                }
                assert(self.one_time_keys() =~= old(self).one_time_keys().remove(one_time_key@));
                Err(X3dhError::UnknownOneTimeKey)
            },
        }
    }

    fn get_identity_key(&self) -> (key: Result<[u8; 32], X3dhError>)
    {
        Ok(self.identity_key)
    }

    fn get_pre_key(&mut self) -> (key: Result<[u8; 32], X3dhError>)
        ensures
            *final(self) == *old(self),
    {
        Ok(self.pre_key)
    }

    fn get_spk(&self) -> (spk: Result<SignedPreKey, X3dhError>)
    {
        let pre_key = x25519_public(&self.pre_key);
        let signature = ed25519_sign(&self.identity_key, pre_key.as_slice());
        proof {
            lemma_encode_single(pre_key@);
        }
        Ok(SignedPreKey { pre_key, signature })
    }

    fn add_one_time_keys(&mut self, num_keys: u32) -> (published: SignedPreKeys)
        ensures
            forall|i: int|
                0 <= i < num_keys ==> final(self).one_time_keys().dom().contains(
                    #[trigger] published.pre_keys@[i]@,
                ),
            forall|public: Seq<u8>|
                old(self).one_time_keys().dom().contains(public)
                    ==> #[trigger] final(self).one_time_keys().dom().contains(public),
            forall|public: Seq<u8>| #[trigger]
                final(self).one_time_keys().dom().contains(public)
                    ==> old(self).one_time_keys().dom().contains(public)
                    || exists|i: int|
                    0 <= i < num_keys && #[trigger] published.pre_keys@[i]@ == public,
    {
        let mut secrets: Vec<[u8; 32]> = Vec::new();
        let mut i: u32 = 0;
        while i < num_keys
            invariant
                i <= num_keys,
                secrets@.len() == i,
            decreases num_keys - i,
        {
            let secret: [u8; 32] = random_bytes();
            secrets.push(secret);
            i = i + 1;
        }
        let published = self.replenish_from_secrets(secrets.as_slice());
        proof {
            let drawn = key_bytes(secrets@);
            assert forall|i: int| 0 <= i < num_keys implies (#[trigger] drawn[i]).len() == 32
                && published.pre_keys@[i]@ == x25519_public_key(drawn[i]) by {
                assert(drawn[i] == secrets@[i]@);
            }
            assert(self.one_time_keys() == with_secrets(old(self).one_time_keys(), drawn));
            lemma_with_secrets_domain(old(self).one_time_keys(), key_bytes(secrets@));
            assert forall|i: int| 0 <= i < num_keys implies self.one_time_keys().dom().contains(
                #[trigger] published.pre_keys@[i]@,
            ) by {
                assert(key_bytes(secrets@)[i] == secrets@[i]@);
            }
            assert forall|public: Seq<u8>| #[trigger]
                self.one_time_keys().dom().contains(public) implies
                old(self).one_time_keys().dom().contains(public)
                || exists|i: int|
                0 <= i < num_keys && #[trigger] published.pre_keys@[i]@ == public by {
                if !old(self).one_time_keys().dom().contains(public) {
                    let i = choose|i: int|
                        0 <= i < key_bytes(secrets@).len() && public == x25519_public_key(
                            #[trigger] key_bytes(secrets@)[i],
                        );
                    assert(key_bytes(secrets@)[i] == secrets@[i]@);
                    assert(published.pre_keys@[i]@ == public);
                }
            }
        }
        published
    }
}

/// Adding secrets keeps every key that was there and files each secret under
/// its public key.
pub proof fn lemma_with_secrets_domain(keys: Map<Seq<u8>, Seq<u8>>, secrets: Seq<Seq<u8>>)
    ensures
        forall|public: Seq<u8>|
            keys.dom().contains(public) ==> #[trigger] with_secrets(keys, secrets).dom().contains(
                public,
            ),
        forall|i: int|
            0 <= i < secrets.len() ==> with_secrets(keys, secrets).dom().contains(
                x25519_public_key(#[trigger] secrets[i]),
            ),
        forall|public: Seq<u8>| #[trigger]
            with_secrets(keys, secrets).dom().contains(public) ==> keys.dom().contains(public)
                || exists|i: int|
                0 <= i < secrets.len() && public == x25519_public_key(#[trigger] secrets[i]),
    decreases secrets.len(),
{
    if secrets.len() > 0 {
        let front = secrets.drop_last();
        lemma_with_secrets_domain(keys, front);
        assert forall|public: Seq<u8>| keys.dom().contains(public) implies #[trigger] with_secrets(
            keys,
            secrets,
        ).dom().contains(public) by {
            assert(with_secrets(keys, front).dom().contains(public));
        }
        assert forall|i: int| 0 <= i < secrets.len() implies with_secrets(
            keys,
            secrets,
        ).dom().contains(x25519_public_key(#[trigger] secrets[i])) by {
            if i < front.len() {
                assert(front[i] == secrets[i]);
                assert(with_secrets(keys, front).dom().contains(x25519_public_key(front[i])));
            }
        }
        assert forall|public: Seq<u8>| #[trigger]
            with_secrets(keys, secrets).dom().contains(public) implies keys.dom().contains(public)
            || exists|i: int|
            0 <= i < secrets.len() && public == x25519_public_key(#[trigger] secrets[i]) by {
            if public == x25519_public_key(secrets.last()) {
                assert(secrets[secrets.len() - 1] == secrets.last());
            } else {
                assert(with_secrets(keys, front).dom().contains(public));
                if !keys.dom().contains(public) {
                    let i = choose|i: int|
                        0 <= i < front.len() && public == x25519_public_key(#[trigger] front[i]);
                    assert(front[i] == secrets[i]);
                }
            }
        }
    }
}

} // verus!
