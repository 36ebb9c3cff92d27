//! The prekey directory and the message queue.
//!
//! For each registered identity the directory keeps the identity key, the
//! current signed prekey, the one-time keys that were published and not yet
//! handed out, and the messages that wait to be retrieved. One-time keys
//! leave in the order in which they came, each at most once; messages are
//! handed over all at once, in the order in which they were accepted.
//!
//! Every operation takes the directory by exclusive reference, so any two
//! calls happen one after the other.

use crate::assoc::{
    distinct_keys, key_absent, lemma_absent, lemma_present, lemma_push, lemma_update, to_map,
};
use crate::bundle::{bundle_verifies, key_bytes, verify_bundle};
use crate::error::X3dhError;
use crate::primitives::option_bytes;
use crate::x3dh::{Message, MessageView, PreKeyBundle, SignedPreKey, SignedPreKeys};
use vstd::prelude::*;

verus! {

/// What the directory holds for one identity, as plain values.
pub struct UserRecord {
    pub identity_key: Seq<u8>,
    pub pre_key: Seq<u8>,
    pub pre_key_signature: Seq<u8>,
    /// The one-time keys not yet handed out, oldest first.
    pub one_time_keys: Seq<Seq<u8>>,
    /// The messages not yet retrieved, oldest first.
    pub inbox: Seq<MessageView>,
}

impl UserRecord {
    /// The record of a user that has just registered.
    pub open spec fn fresh(identity_key: Seq<u8>, pre_key: Seq<u8>, signature: Seq<u8>) -> UserRecord {
        UserRecord {
            identity_key,
            pre_key,
            pre_key_signature: signature,
            one_time_keys: Seq::empty(),
            inbox: Seq::empty(),
        }
    }

    /// The record with another signed prekey.
    pub open spec fn with_pre_key(self, pre_key: Seq<u8>, signature: Seq<u8>) -> UserRecord {
        UserRecord { pre_key, pre_key_signature: signature, ..self }
    }

    /// The record after `keys` were published, behind those already there.
    pub open spec fn with_one_time_keys(self, keys: Seq<Seq<u8>>) -> UserRecord {
        UserRecord { one_time_keys: self.one_time_keys + keys, ..self }
    }

    /// The one-time key that the next request hands out: the oldest, if any.
    pub open spec fn next_one_time_key(self) -> Option<Seq<u8>> {
        if self.one_time_keys.len() > 0 {
            Some(self.one_time_keys[0])
        } else {
            None
        }
    }

    /// The record after one request: without the key that was handed out.
    pub open spec fn after_request(self) -> UserRecord {
        if self.one_time_keys.len() > 0 {
            UserRecord { one_time_keys: self.one_time_keys.drop_first(), ..self }
        } else {
            self
        }
    }

    /// The record after `count` requests in a row.
    pub open spec fn after_requests(self, count: nat) -> UserRecord
        decreases count,
    {
        if count == 0 {
            self
        } else {
            self.after_requests((count - 1) as nat).after_request()
        }
    }

    /// The record after `message` was accepted for this user.
    pub open spec fn with_message(self, message: MessageView) -> UserRecord {
        UserRecord { inbox: self.inbox.push(message), ..self }
    }

    /// The record after each message of `messages` was accepted, in listed
    /// order.
    pub open spec fn with_messages(self, messages: Seq<MessageView>) -> UserRecord
        decreases messages.len(),
    {
        if messages.len() == 0 {
            self
        } else {
            self.with_messages(messages.drop_last()).with_message(messages.last())
        }
    }

    /// The record after its messages were retrieved.
    pub open spec fn drained(self) -> UserRecord {
        UserRecord { inbox: Seq::empty(), ..self }
    }
}

/// After `count` requests the pool has lost its `count` oldest keys, or all
/// of them.
pub proof fn lemma_after_requests(record: UserRecord, count: nat)
    ensures
        record.after_requests(count).one_time_keys == (if count <= record.one_time_keys.len() {
            record.one_time_keys.subrange(count as int, record.one_time_keys.len() as int)
        } else {
            Seq::empty()
        }),
    decreases count,
{
    if count == 0 {
        assert(record.one_time_keys.subrange(0, record.one_time_keys.len() as int)
            =~= record.one_time_keys);
    } else {
        lemma_after_requests(record, (count - 1) as nat);
        let before = record.after_requests((count - 1) as nat);
        if count <= record.one_time_keys.len() {
            assert(before.one_time_keys.drop_first() =~= record.one_time_keys.subrange(
                count as int,
                record.one_time_keys.len() as int,
            ));
        } else {
            assert(before.after_request().one_time_keys =~= Seq::<Seq<u8>>::empty());
        }
    }
}

/// One-time keys leave in the order in which they were published: after
/// `keys` were added to a pool, the requests that follow hand out first what
/// the pool held before, then `keys[0]`, `keys[1]` and so on.
pub proof fn lemma_one_time_keys_fifo(record: UserRecord, keys: Seq<Seq<u8>>, i: int)
    requires
        0 <= i < keys.len(),
    ensures
        record.with_one_time_keys(keys).after_requests(
            (record.one_time_keys.len() + i) as nat,
        ).next_one_time_key() == Some(keys[i]),
{
    lemma_after_requests(record.with_one_time_keys(keys), (record.one_time_keys.len() + i) as nat);
}

/// No one-time key entry is handed out twice: where no key occurs twice in
/// the pool, any two requests that both hand out a key hand out different
/// keys.
pub proof fn lemma_requests_distinct(record: UserRecord, first: nat, second: nat)
    requires
        record.one_time_keys.no_duplicates(),
        first < second,
        record.after_requests(second).next_one_time_key() is Some,
    ensures
        record.after_requests(first).next_one_time_key() is Some,
        record.after_requests(first).next_one_time_key() != record.after_requests(
            second,
        ).next_one_time_key(),
{
    lemma_after_requests(record, first);
    lemma_after_requests(record, second);
    assert(record.after_requests(first).next_one_time_key() == Some(
        record.one_time_keys[first as int],
    ));
    assert(record.after_requests(second).next_one_time_key() == Some(
        record.one_time_keys[second as int],
    ));
}

/// Retrieval hands over every message accepted since the last retrieval, in
/// the order accepted, and leaves nothing for a retrieval that follows at
/// once: what a retrieval returns is the inbox, the inbox after a retrieval
/// is empty, and the inbox after messages were accepted behind a retrieval
/// holds exactly those messages.
pub proof fn lemma_retrieve_drains(record: UserRecord, messages: Seq<MessageView>)
    ensures
        record.drained().inbox == Seq::<MessageView>::empty(),
        record.drained().drained() == record.drained(),
        record.with_messages(messages).inbox == record.inbox + messages,
        record.drained().with_messages(messages).inbox == messages,
        record.with_messages(messages).drained().inbox == Seq::<MessageView>::empty(),
    decreases messages.len(),
{
    if messages.len() > 0 {
        lemma_retrieve_drains(record, messages.drop_last());
        assert(record.with_messages(messages).inbox =~= record.inbox + messages);
        lemma_retrieve_drains(record.drained(), messages.drop_last());
        assert(record.drained().with_messages(messages).inbox =~= messages);
    } else {
        assert(record.with_messages(messages).inbox =~= record.inbox + messages);
        assert(record.drained().with_messages(messages).inbox =~= messages);
    }
}

/// The identity key of a user never changes once it is registered: no change
/// that an operation of the directory makes to a record touches it.
pub proof fn lemma_identity_key_is_kept(
    record: UserRecord,
    pre_key: Seq<u8>,
    signature: Seq<u8>,
    keys: Seq<Seq<u8>>,
    message: MessageView,
)
    ensures
        record.with_pre_key(pre_key, signature).identity_key == record.identity_key,
        record.with_one_time_keys(keys).identity_key == record.identity_key,
        record.after_request().identity_key == record.identity_key,
        record.with_message(message).identity_key == record.identity_key,
        record.drained().identity_key == record.identity_key,
{
}

/// The messages of a list, as plain values.
pub open spec fn message_views(messages: Seq<Message>) -> Seq<MessageView> {
    Seq::new(messages.len(), |i: int| messages[i]@)
}

struct UserEntry {
    identity: String,
    identity_key: [u8; 32],
    current_pre_key: SignedPreKey,
    one_time_pre_keys: Vec<[u8; 32]>,
    messages: Vec<Message>,
}

impl UserEntry {
    spec fn record(&self) -> UserRecord {
        UserRecord {
            identity_key: self.identity_key@,
            pre_key: self.current_pre_key.pre_key@,
            pre_key_signature: self.current_pre_key.signature@,
            one_time_keys: key_bytes(self.one_time_pre_keys@),
            inbox: message_views(self.messages@),
        }
    }
}

/// The directory, kept in memory.
pub struct InMemoryServer {
    users: Vec<UserEntry>,
}

impl View for InMemoryServer {
    type V = Map<Seq<char>, UserRecord>;

    /// The record of each registered identity.
    closed spec fn view(&self) -> Map<Seq<char>, UserRecord> {
        to_map(self.entries())
    }
}

impl InMemoryServer {
    closed spec fn entries(&self) -> Seq<(Seq<char>, UserRecord)> {
        Seq::new(self.users@.len(), |i: int| (self.users@[i].identity@, self.users@[i].record()))
    }

    /// No identity is registered twice.
    pub closed spec fn valid(&self) -> bool {
        distinct_keys(self.entries())
    }

    /// A directory without users.
    pub fn new() -> (server: Self)
        ensures
            server.valid(),
            server@ == Map::<Seq<char>, UserRecord>::empty(),
    {
        let server = InMemoryServer { users: Vec::new() };
        assert(server.entries() =~= Seq::empty());
        server
    }

    fn position(&self, identity: &String) -> (found: Option<usize>)
        requires
            self.valid(),
        ensures
            match found {
                Some(i) => i < self.users@.len() && self.entries()[i as int].0 == identity@
                    && self@.dom().contains(identity@) && self@[identity@]
                    == self.users@[i as int].record(),
                None => !self@.dom().contains(identity@) && key_absent(self.entries(), identity@),
            },
    {
        let mut i: usize = 0;
        while i < self.users.len()
            invariant
                i <= self.users@.len(),
                self.valid(),
                forall|j: int| 0 <= j < i ==> (#[trigger] self.entries()[j]).0 != identity@,
            decreases self.users@.len() - i,
        {
            if self.users[i].identity == *identity {
                proof {
                    lemma_present(self.entries(), i as int);
                }
                return Some(i);
            }
            i = i + 1;
        }
        proof {
            lemma_absent(self.entries(), identity@);
        }
        None
    }

    /// Puts `entry` in the place of the entry at `i`, which has the same
    /// identity, and hands back what was there.
    fn exchange(&mut self, i: usize, entry: UserEntry) -> (previous: UserEntry)
        requires
            old(self).valid(),
            i < old(self).users@.len(),
            old(self).users@[i as int].identity@ == entry.identity@,
        ensures
            final(self).valid(),
            previous == old(self).users@[i as int],
            final(self).users@ == old(self).users@.update(i as int, entry),
            final(self)@ == old(self)@.insert(entry.identity@, entry.record()),
    {
        let ghost before = self.entries();
        proof {
            lemma_update(before, i as int, entry.record());
        }
        self.users.push(entry);
        let previous = self.users.swap_remove(i);
        assert(self.users@ =~= old(self).users@.update(i as int, entry));
        assert(self.entries() =~= before.update(i as int, (before[i as int].0, entry.record())));
        previous
    }

    /// Takes the entry at `i` out for a change, leaving an empty entry of the
    /// same identity in its place until `exchange` brings the changed one.
    fn checkout(&mut self, i: usize) -> (previous: UserEntry)
        requires
            old(self).valid(),
            i < old(self).users@.len(),
        ensures
            final(self).valid(),
            previous == old(self).users@[i as int],
            final(self).users@.len() == old(self).users@.len(),
            final(self).users@[i as int].identity@ == previous.identity@,
            forall|record: UserRecord| #[trigger]
                final(self)@.insert(previous.identity@, record) == old(self)@.insert(
                    previous.identity@,
                    record,
                ),
    {
        let placeholder = UserEntry {
            identity: self.users[i].identity.clone(),
            identity_key: self.users[i].identity_key,
            current_pre_key: self.users[i].current_pre_key,
            one_time_pre_keys: Vec::new(),
            messages: Vec::new(),
        };
        let ghost name = placeholder.identity@;
        let ghost blank = placeholder.record();
        let previous = self.exchange(i, placeholder);
        assert forall|record: UserRecord| #[trigger]
            self@.insert(name, record) == old(self)@.insert(name, record) by {
            assert(old(self)@.insert(name, blank).insert(name, record) =~= old(self)@.insert(
                name,
                record,
            ));
        }
        previous
    }

    /// Registers `identity` with its identity key and signed prekey.
    ///
    /// The signed prekey must verify under the identity key. An identity that
    /// is registered already keeps what it has: the call changes nothing and
    /// succeeds.
    pub fn register(&mut self, identity: String, identity_key: [u8; 32], spk: SignedPreKey) -> (result:
        Result<(), X3dhError>)
        requires
            old(self).valid(),
        ensures
            final(self).valid(),
            result is Ok <==> bundle_verifies(identity_key@, seq![spk.pre_key@], spk.signature@),
            result is Err ==> result->Err_0 == X3dhError::BundleVerifyFailed,
            final(self)@ == (if result is Ok && !old(self)@.dom().contains(identity@) {
                old(self)@.insert(
                    identity@,
                    UserRecord::fresh(identity_key@, spk.pre_key@, spk.signature@),
                )
            } else {
                old(self)@
            }),
    {
        let mut publics: Vec<[u8; 32]> = Vec::new();
        publics.push(spk.pre_key);
        assert(key_bytes(publics@) =~= seq![spk.pre_key@]);
        if verify_bundle(&identity_key, publics.as_slice(), &spk.signature).is_err() {
            return Err(X3dhError::BundleVerifyFailed);
        }
        match self.position(&identity) {
            Some(_) => {},
            None => {
                let entry = UserEntry {
                    identity,
                    identity_key,
                    current_pre_key: spk,
                    one_time_pre_keys: Vec::new(),
                    messages: Vec::new(),
                };
                let ghost before = self.entries();
                proof {
                    lemma_push(before, entry.identity@, entry.record());
                    assert(entry.record().one_time_keys =~= Seq::<Seq<u8>>::empty());
                    assert(entry.record().inbox =~= Seq::<MessageView>::empty());
                }
                self.users.push(entry);
                assert(self.entries() =~= before.push((identity@, entry.record())));
            },
        }
        Ok(())
    }

    /// Replaces the signed prekey of `identity`. The new one must verify under
    /// the identity key that the user registered with.
    pub fn update_pre_key(&mut self, identity: &String, spk: SignedPreKey) -> (result: Result<
        (),
        X3dhError,
    >)
        requires
            old(self).valid(),
        ensures
            final(self).valid(),
            !old(self)@.dom().contains(identity@) ==> result is Err && result->Err_0
                == X3dhError::UnknownUser && final(self)@ == old(self)@,
            old(self)@.dom().contains(identity@) ==> (if bundle_verifies(
                old(self)@[identity@].identity_key,
                seq![spk.pre_key@],
                spk.signature@,
            ) {
                result is Ok && final(self)@ == old(self)@.insert(
                    identity@,
                    old(self)@[identity@].with_pre_key(spk.pre_key@, spk.signature@),
                )
            } else {
                result is Err && result->Err_0 == X3dhError::BundleVerifyFailed && final(self)@
                    == old(self)@
            }),
    {
        let i = match self.position(identity) {
            Some(i) => i,
            None => {
                return Err(X3dhError::UnknownUser);
            },
        };
        let mut publics: Vec<[u8; 32]> = Vec::new();
        publics.push(spk.pre_key);
        assert(key_bytes(publics@) =~= seq![spk.pre_key@]);
        if verify_bundle(&self.users[i].identity_key, publics.as_slice(), &spk.signature).is_err() {
            return Err(X3dhError::BundleVerifyFailed);
        }
        let UserEntry { identity: name, identity_key, current_pre_key: _, one_time_pre_keys, messages } =
            self.checkout(i);
        let _ = self.exchange(
            i,
            UserEntry { identity: name, identity_key, current_pre_key: spk, one_time_pre_keys, messages },
        );
        Ok(())
    }

    /// Adds the one-time keys of `otk_bundle` to the pool of `identity`,
    /// behind those already there. The bundle must verify under the identity
    /// key that the user registered with.
    pub fn add_one_time_keys(&mut self, identity: &String, otk_bundle: SignedPreKeys) -> (result:
        Result<(), X3dhError>)
        requires
            old(self).valid(),
        ensures
            final(self).valid(),
            !old(self)@.dom().contains(identity@) ==> result is Err && result->Err_0
                == X3dhError::UnknownUser && final(self)@ == old(self)@,
            old(self)@.dom().contains(identity@) ==> (if bundle_verifies(
                old(self)@[identity@].identity_key,
                key_bytes(otk_bundle.pre_keys@),
                otk_bundle.signature@,
            ) {
                result is Ok && final(self)@ == old(self)@.insert(
                    identity@,
                    old(self)@[identity@].with_one_time_keys(key_bytes(otk_bundle.pre_keys@)),
                )
            } else {
                result is Err && result->Err_0 == X3dhError::BundleVerifyFailed && final(self)@
                    == old(self)@
            }),
    {
        let i = match self.position(identity) {
            Some(i) => i,
            None => {
                return Err(X3dhError::UnknownUser);
            },
        };
        if verify_bundle(
            &self.users[i].identity_key,
            otk_bundle.pre_keys.as_slice(),
            &otk_bundle.signature,
        ).is_err() {
            return Err(X3dhError::BundleVerifyFailed);
        }
        let UserEntry { identity: name, identity_key, current_pre_key, one_time_pre_keys, messages } =
            self.checkout(i);
        let mut pool = one_time_pre_keys;
        let ghost before = pool@;
        let mut added = otk_bundle.pre_keys;
        let ghost keys = added@;
        pool.append(&mut added);
        assert(key_bytes(pool@) =~= key_bytes(before) + key_bytes(keys));
        let _ = self.exchange(
            i,
            UserEntry { identity: name, identity_key, current_pre_key, one_time_pre_keys: pool, messages },
        );
        Ok(())
    }

    /// The identity key and the current signed prekey of `identity`.
    pub fn get_current_keys(&self, identity: &String) -> (result: Result<
        ([u8; 32], SignedPreKey),
        X3dhError,
    >)
        requires
            self.valid(),
        ensures
            match result {
                Ok((identity_key, spk)) => self@.dom().contains(identity@) && identity_key@
                    == self@[identity@].identity_key && spk.pre_key@ == self@[identity@].pre_key
                    && spk.signature@ == self@[identity@].pre_key_signature,
                Err(e) => !self@.dom().contains(identity@) && e == X3dhError::UnknownUser,
            },
    {
        match self.position(identity) {
            Some(i) => Ok((self.users[i].identity_key, self.users[i].current_pre_key)),
            None => Err(X3dhError::UnknownUser),
        }
    }

    /// Hands out the oldest one-time key of `identity` and takes it out of
    /// the pool. `None` where the pool is empty or the identity unknown.
    pub fn pop_one_time_key(&mut self, identity: &String) -> (key: Option<[u8; 32]>)
        requires
            old(self).valid(),
        ensures
            final(self).valid(),
            !old(self)@.dom().contains(identity@) ==> key is None && final(self)@ == old(self)@,
            old(self)@.dom().contains(identity@) ==> ({
                let record = old(self)@[identity@];
                &&& option_bytes(key) == record.next_one_time_key()
                &&& final(self)@ == old(self)@.insert(identity@, record.after_request())
            }),
    {
        let i = match self.position(identity) {
            Some(i) => i,
            None => {
                return None;
            },
        };
        if self.users[i].one_time_pre_keys.len() == 0 {
            assert(self@ =~= old(self)@.insert(identity@, old(self)@[identity@]));
            return None;
        }
        let UserEntry { identity: name, identity_key, current_pre_key, one_time_pre_keys, messages } =
            self.checkout(i);
        let mut pool = one_time_pre_keys;
        let ghost before = pool@;
        let key = pool.remove(0);
        assert(key_bytes(pool@) =~= key_bytes(before).drop_first());
        let _ = self.exchange(
            i,
            UserEntry { identity: name, identity_key, current_pre_key, one_time_pre_keys: pool, messages },
        );
        Some(key)
    }

    /// The prekey bundle of `identity` for one sender: the identity key, the
    /// current signed prekey, and the oldest one-time key if any is left. The
    /// one-time key leaves the pool with this call.
    pub fn request_pre_keys(&mut self, identity: &String) -> (result: Result<PreKeyBundle, X3dhError>)
        requires
            old(self).valid(),
        ensures
            final(self).valid(),
            !old(self)@.dom().contains(identity@) ==> result is Err && result->Err_0
                == X3dhError::UnknownUser && final(self)@ == old(self)@,
            old(self)@.dom().contains(identity@) ==> result is Ok && ({
                let record = old(self)@[identity@];
                let bundle = result->Ok_0;
                &&& bundle.identity_key@ == record.identity_key
                &&& bundle.spk.pre_key@ == record.pre_key
                &&& bundle.spk.signature@ == record.pre_key_signature
                &&& option_bytes(bundle.otk) == record.next_one_time_key()
                &&& final(self)@ == old(self)@.insert(identity@, record.after_request())
            }),
    {
        let (identity_key, spk) = match self.get_current_keys(identity) {
            Ok(keys) => keys,
            Err(e) => {
                return Err(e);
            },
        };
        let otk = self.pop_one_time_key(identity);
        Ok(PreKeyBundle { identity_key, otk, spk })
    }

    /// Accepts `message` for `recipient_identity`, behind the messages that
    /// wait already.
    pub fn send_message(&mut self, recipient_identity: &String, message: Message) -> (result: Result<
        (),
        X3dhError,
    >)
        requires
            old(self).valid(),
        ensures
            final(self).valid(),
            !old(self)@.dom().contains(recipient_identity@) ==> result is Err && result->Err_0
                == X3dhError::UnknownUser && final(self)@ == old(self)@,
            old(self)@.dom().contains(recipient_identity@) ==> result is Ok
                && final(self)@ == old(self)@.insert(
                recipient_identity@,
                old(self)@[recipient_identity@].with_message(message@),
            ),
    {
        let i = match self.position(recipient_identity) {
            Some(i) => i,
            None => {
                return Err(X3dhError::UnknownUser);
            },
        };
        let UserEntry { identity: name, identity_key, current_pre_key, one_time_pre_keys, messages } =
            self.checkout(i);
        let mut inbox = messages;
        let ghost before = inbox@;
        inbox.push(message);
        assert(message_views(inbox@) =~= message_views(before).push(message@));
        let _ = self.exchange(
            i,
            UserEntry { identity: name, identity_key, current_pre_key, one_time_pre_keys, messages: inbox },
        );
        Ok(())
    }

    /// Hands over every message that waits for `identity`, oldest first, and
    /// leaves none behind. An unknown identity has no messages.
    pub fn retrieve_messages(&mut self, identity: &String) -> (messages: Vec<Message>)
        requires
            old(self).valid(),
        ensures
            final(self).valid(),
            !old(self)@.dom().contains(identity@) ==> messages@.len() == 0
                && final(self)@ == old(self)@,
            old(self)@.dom().contains(identity@) ==> ({
                let record = old(self)@[identity@];
                &&& message_views(messages@) == record.inbox
                &&& final(self)@ == old(self)@.insert(identity@, record.drained())
            }),
    {
        let i = match self.position(identity) {
            Some(i) => i,
            None => {
                return Vec::new();
            },
        };
        let UserEntry { identity: name, identity_key, current_pre_key, one_time_pre_keys, messages } =
            self.checkout(i);
        let emptied = UserEntry {
            identity: name,
            identity_key,
            current_pre_key,
            one_time_pre_keys,
            messages: Vec::new(),
        };
        assert(emptied.record().inbox =~= Seq::<MessageView>::empty());
        let _ = self.exchange(i, emptied);
        messages
    }
}

} // verus!
