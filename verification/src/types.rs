//! Requests, credentials and stored records.

use vstd::prelude::*;

verus! {

/// A point in time: seconds since the Unix epoch and the nanoseconds after them.
#[derive(Debug, Clone, Copy, PartialEq, Eq, Structural)]
pub struct Timestamp {
    pub secs: i64,
    pub nanos: u32,
}

/// First contact: what a client application presents to be enrolled.
#[derive(Debug, Clone)]
pub struct EnrollmentRequest {
    /// The plaintext bootstrap key.
    pub api_key: String,
    pub client_name: String,
    /// The raw ed25519 public key.
    pub public_key: Vec<u8>,
}

/// An [`EnrollmentRequest`] as a mathematical value.
pub struct EnrollmentFields {
    pub api_key: Seq<char>,
    pub client_name: Seq<char>,
    pub public_key: Seq<u8>,
}

impl View for EnrollmentRequest {
    type V = EnrollmentFields;

    open spec fn view(&self) -> EnrollmentFields {
        EnrollmentFields {
            api_key: self.api_key@,
            client_name: self.client_name@,
            public_key: self.public_key@,
        }
    }
}

/// What an enrolled client gets back. It carries no secret.
#[derive(Debug, Clone)]
pub struct ClientCredential {
    pub client_id: String,
    pub fingerprint: String,
    pub enrolled_at: Timestamp,
}

/// A [`ClientCredential`] as a mathematical value.
pub struct Credential {
    pub client_id: Seq<char>,
    pub fingerprint: Seq<char>,
    pub enrolled_at: Timestamp,
}

impl View for ClientCredential {
    type V = Credential;

    open spec fn view(&self) -> Credential {
        Credential {
            client_id: self.client_id@,
            fingerprint: self.fingerprint@,
            enrolled_at: self.enrolled_at,
        }
    }
}

/// What a request presents to be authenticated.
#[derive(Debug, Clone)]
pub struct PresentedClientAuth {
    pub client_id: String,
    /// The canonical request bytes that were signed.
    pub canonical_request: Vec<u8>,
    pub signature: Vec<u8>,
    /// Unix seconds.
    pub timestamp: i64,
    pub nonce: String,
}

/// A [`PresentedClientAuth`] as a mathematical value.
pub struct Presented {
    pub client_id: Seq<char>,
    pub canonical_request: Seq<u8>,
    pub signature: Seq<u8>,
    pub timestamp: i64,
    pub nonce: Seq<char>,
}

impl View for PresentedClientAuth {
    type V = Presented;

    open spec fn view(&self) -> Presented {
        Presented {
            client_id: self.client_id@,
            canonical_request: self.canonical_request@,
            signature: self.signature@,
            timestamp: self.timestamp,
            nonce: self.nonce@,
        }
    }
}

/// The client application behind an authenticated request.
#[derive(Debug, Clone)]
pub struct ClientIdentity {
    pub client_id: String,
}

impl View for ClientIdentity {
    type V = Seq<char>;

    /// An identity is its client id.
    open spec fn view(&self) -> Seq<char> {
        self.client_id@
    }
}

/// Stored shape of a pinned client. It holds no private or secret material, only the
/// public key, its fingerprint, the validated name and the time.
#[derive(Debug, Clone)]
pub struct StoredClient {
    pub client_id: String,
    /// The ed25519 public key, hex-encoded.
    pub public_key: String,
    /// SHA-256 hex of the raw public-key bytes (the pin, or fingerprint).
    pub fingerprint: String,
    pub client_name: String,
    pub enrolled_at: Timestamp,
}

/// A [`StoredClient`] as a mathematical value.
pub struct ClientRecord {
    pub client_id: Seq<char>,
    pub public_key: Seq<char>,
    pub fingerprint: Seq<char>,
    pub client_name: Seq<char>,
    pub enrolled_at: Timestamp,
}

impl View for StoredClient {
    type V = ClientRecord;

    open spec fn view(&self) -> ClientRecord {
        ClientRecord {
            client_id: self.client_id@,
            public_key: self.public_key@,
            fingerprint: self.fingerprint@,
            client_name: self.client_name@,
            enrolled_at: self.enrolled_at,
        }
    }
}

/// Stored shape of a bootstrap key: only the hash, plus single-use state.
#[derive(Debug, Clone)]
pub struct StoredBootstrapKey {
    /// SHA-256 hex of the plaintext bootstrap key.
    pub key_hash: String,
    pub consumed: bool,
    pub issued_at: Timestamp,
}

/// A [`StoredBootstrapKey`] as a mathematical value.
pub struct KeyRecord {
    pub key_hash: Seq<char>,
    pub consumed: bool,
    pub issued_at: Timestamp,
}

impl View for StoredBootstrapKey {
    type V = KeyRecord;

    open spec fn view(&self) -> KeyRecord {
        KeyRecord {
            key_hash: self.key_hash@,
            consumed: self.consumed,
            issued_at: self.issued_at,
        }
    }
}

/// A request to enroll is its three fields.
pub proof fn enrollment_request_fields(r: EnrollmentRequest)
    ensures
        r@.api_key == r.api_key@,
        r@.client_name == r.client_name@,
        r@.public_key == r.public_key@,
{
}

/// A presented request is its five fields.
pub proof fn presented_fields(p: PresentedClientAuth)
    ensures
        p@.client_id == p.client_id@,
        p@.canonical_request == p.canonical_request@,
        p@.signature == p.signature@,
        p@.timestamp == p.timestamp,
        p@.nonce == p.nonce@,
{
}

/// A credential is its three fields, and an identity is its client id.
pub proof fn credential_fields(c: ClientCredential, i: ClientIdentity)
    ensures
        c@.client_id == c.client_id@,
        c@.fingerprint == c.fingerprint@,
        c@.enrolled_at == c.enrolled_at,
        i@ == i.client_id@,
{
}

/// A stored record is its fields.
pub proof fn record_fields(c: StoredClient, k: StoredBootstrapKey)
    ensures
        c@.client_id == c.client_id@,
        c@.public_key == c.public_key@,
        c@.fingerprint == c.fingerprint@,
        c@.client_name == c.client_name@,
        c@.enrolled_at == c.enrolled_at,
        k@.key_hash == k.key_hash@,
        k@.consumed == k.consumed,
        k@.issued_at == k.issued_at,
{
}

} // verus!
