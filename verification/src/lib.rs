//! Device-bound protection of secrets at rest.
//!
//! A key is derived from the machine's identity and a stored random salt;
//! secrets are sealed into a nonce-prefixed envelope with AES-256-GCM and
//! carried as padded standard base64 text.

pub mod bytes;
pub mod codec;
pub mod error;
pub mod identity;
pub mod keys;
pub mod settings;
pub mod transport;
