//! X3DH key agreement with an AEAD-protected first message, the client key
//! store that backs it, and the prekey directory with its message queue.
//!
//! - `primitives`: the cryptographic crates behind this library, as functions
//!   from bytes to bytes whose contracts are taken on trust.
//! - `aead`: the framing of a ciphertext behind its nonce.
//! - `bundle`: signing and verifying lists of prekeys.
//! - `x3dh`: the sender and receiver halves of the key agreement.
//! - `client`: the client's keys, one-time keys and session keys.
//! - `server`: the directory of users, their prekeys and waiting messages.
//! - `command`: the command line of the client's shell.
//! - `assoc`: lists of entries read as maps, for the stores above.
//! - `error`: the failures of all of these.

pub mod aead;
pub mod assoc;
pub mod bundle;
pub mod client;
pub mod command;
pub mod error;
pub mod primitives;
pub mod server;
pub mod x3dh;
