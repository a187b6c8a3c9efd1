//! Trust-on-first-use (TOFU) authentication of client applications with asymmetric
//! (ed25519) keys.
//!
//! 1. An operator mints a single-use bootstrap key with
//!    [`issue_bootstrap_key`](TofuClientAuth::issue_bootstrap_key) and hands its plaintext
//!    out. Only its SHA-256 hash is stored.
//! 2. A client makes first contact with [`enroll`](TofuClientAuth::enroll). Its bootstrap
//!    key is consumed and its public key is pinned.
//! 3. Each later request is checked by [`verify`](TofuClientAuth::verify): an ed25519
//!    signature over the canonical request bytes, a timestamp within a bounded window and
//!    a nonce that has not been seen.
//!
//! The library makes every decision; the store, its documents and the clock stay outside.
//! Where an operation needs the store, it hands out what to fetch or write and goes on
//! with the reply.

pub mod canonical;
pub mod crypto;
pub mod enroll;
pub mod error;
pub mod hex;
pub mod history;
pub mod replay;
pub mod scheme;
pub mod store;
pub mod text;
pub mod types;

pub use canonical::{canonicalize, DOMAIN_TAG};
pub use error::ClientAuthError;
pub use replay::DEFAULT_SKEW_SECS;
pub use scheme::TofuClientAuth;
pub use types::{
    ClientCredential, ClientIdentity, EnrollmentRequest, PresentedClientAuth, StoredBootstrapKey,
    StoredClient, Timestamp,
};
