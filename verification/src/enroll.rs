//! Enrollment: pinning a client's public key on first contact.
//!
//! An enrollment goes from step to step with the store's replies:
//! [`Enrollment`] asks whether the client is pinned already, [`FirstContact`] asks for the
//! bootstrap key, [`Redemption`] writes it back as consumed and [`Pinning`] writes the
//! client. A client is written only after its key has been consumed.

use crate::crypto::{check_ed25519_key, constant_time_eq, ed25519_key_valid, sha256_hex, sha256_text};
use crate::error::{outcome, store_err, AuthFailure, ClientAuthError};
use crate::hex::{hex_encode, hex_text};
use crate::scheme::TofuClientAuth;
use crate::store::{Fetched, Get, GetFields, Lookup, Put, PutFields, BOOTSTRAP_KEYS, CLIENTS};
use crate::text::{is_white_space, trimmed, trimmed_of_padded};
use crate::types::{
    ClientCredential, ClientRecord, Credential, EnrollmentFields, EnrollmentRequest, KeyRecord,
    StoredBootstrapKey, StoredClient, Timestamp,
};
use vstd::prelude::*;
use vstd::utf8::encode_utf8;

verus! {

/// Maximum accepted length of a client name, in characters.
pub const MAX_CLIENT_NAME_LEN: usize = 256;

/// A valid request to enroll a client, as a mathematical value.
pub struct PendingPin {
    /// The validated name.
    pub client_name: Seq<char>,
    /// The public key in hexadecimal.
    pub public_key: Seq<char>,
    /// The fingerprint of the public key, which is the client's id.
    pub client_id: Seq<char>,
    /// The hash of the presented bootstrap key.
    pub key_hash: Seq<char>,
}

/// Where the pin check leads.
pub enum PinOutcome {
    /// The same key is pinned already: this is its credential.
    Known(Credential),
    /// Nobody is pinned under this id.
    FirstContact(PendingPin),
}

/// A bootstrap key that is being redeemed, as a mathematical value.
pub struct PendingRedemption {
    pub pin: PendingPin,
    pub update: PutFields<KeyRecord>,
}

/// Validation of a request: its name, then its public key. `key_valid` says whether 32 key
/// bytes are a public key.
pub open spec fn enrollment(
    req: EnrollmentFields,
    key_valid: bool,
    fingerprint: Seq<char>,
    key_hash: Seq<char>,
) -> Result<PendingPin, AuthFailure> {
    let name = trimmed(req.client_name);
    if name.len() == 0 || name.len() > MAX_CLIENT_NAME_LEN {
        Err(AuthFailure::Invalid("client_name must be 1..=256 non-blank chars"@))
    } else if req.public_key.len() != 32 {
        Err(AuthFailure::Invalid("public_key must be 32 bytes"@))
    } else if !key_valid {
        Err(AuthFailure::Invalid("public_key is not a valid ed25519 key"@))
    } else {
        Ok(
            PendingPin {
                client_name: name,
                public_key: hex_text(req.public_key),
                client_id: fingerprint,
                key_hash,
            },
        )
    }
}

impl PendingPin {
    /// The check of the pin against what the store holds under the client's id.
    pub open spec fn pin_outcome(self, client: Fetched<ClientRecord>) -> Result<
        PinOutcome,
        AuthFailure,
    > {
        match client {
            Fetched::Found(c) => if c.public_key != self.public_key {
                Err(AuthFailure::PinMismatch)
            } else {
                Ok(
                    PinOutcome::Known(
                        Credential {
                            client_id: c.client_id,
                            fingerprint: c.fingerprint,
                            enrolled_at: c.enrolled_at,
                        },
                    ),
                )
            },
            Fetched::NotFound => Ok(PinOutcome::FirstContact(self)),
            Fetched::Failed(text) => Err(AuthFailure::Storage(text)),
        }
    }

    /// The check of the bootstrap key against what the store holds under its hash.
    pub open spec fn redemption(self, key: Fetched<KeyRecord>) -> Result<
        PendingRedemption,
        AuthFailure,
    > {
        match key {
            Fetched::Found(k) => if k.key_hash != self.key_hash || k.consumed {
                Err(AuthFailure::BadApiKey)
            } else {
                Ok(
                    PendingRedemption {
                        pin: self,
                        update: PutFields {
                            collection: BOOTSTRAP_KEYS@,
                            id: self.key_hash,
                            doc: KeyRecord {
                                key_hash: k.key_hash,
                                consumed: true,
                                issued_at: k.issued_at,
                            },
                        },
                    },
                )
            },
            Fetched::NotFound => Err(AuthFailure::BadApiKey),
            Fetched::Failed(text) => Err(AuthFailure::Storage(text)),
        }
    }

    /// The record that pins the client: public material only.
    pub open spec fn record(self, enrolled_at: Timestamp) -> PutFields<ClientRecord> {
        PutFields {
            collection: CLIENTS@,
            id: self.client_id,
            doc: ClientRecord {
                client_id: self.client_id,
                public_key: self.public_key,
                fingerprint: self.client_id,
                client_name: self.client_name,
                enrolled_at,
            },
        }
    }

    /// The credential of the client once it is pinned.
    pub open spec fn credential(self, enrolled_at: Timestamp) -> Credential {
        Credential { client_id: self.client_id, fingerprint: self.client_id, enrolled_at }
    }
}

/// A validated request that waits for the pin check.
pub struct Enrollment {
    client_name: String,
    public_key: String,
    client_id: String,
    key_hash: String,
}

impl View for Enrollment {
    type V = PendingPin;

    closed spec fn view(&self) -> PendingPin {
        PendingPin {
            client_name: self.client_name@,
            public_key: self.public_key@,
            client_id: self.client_id@,
            key_hash: self.key_hash@,
        }
    }
}

/// Where the pin check led.
pub enum PinDecision {
    /// The same key is pinned already: no bootstrap key is needed.
    Known(ClientCredential),
    FirstContact(FirstContact),
}

impl View for PinDecision {
    type V = PinOutcome;

    open spec fn view(&self) -> PinOutcome {
        match self {
            PinDecision::Known(c) => PinOutcome::Known(c@),
            PinDecision::FirstContact(f) => PinOutcome::FirstContact(f@),
        }
    }
}

/// A new client that waits for its bootstrap key to be looked up.
pub struct FirstContact {
    pending: Enrollment,
}

impl View for FirstContact {
    type V = PendingPin;

    closed spec fn view(&self) -> PendingPin {
        self.pending@
    }
}

/// A new client whose bootstrap key is good and waits to be marked consumed.
pub struct Redemption {
    pending: Enrollment,
    update: Put<StoredBootstrapKey>,
}

impl View for Redemption {
    type V = PendingRedemption;

    closed spec fn view(&self) -> PendingRedemption {
        PendingRedemption { pin: self.pending@, update: self.update@ }
    }
}

/// A new client whose bootstrap key has been consumed and which waits to be stored.
pub struct Pinning {
    insert: Put<StoredClient>,
}

impl View for Pinning {
    type V = PutFields<ClientRecord>;

    closed spec fn view(&self) -> PutFields<ClientRecord> {
        self.insert@
    }
}

impl TofuClientAuth {
    /// Starts an enrollment: validates the name and the public key, before any bootstrap
    /// key is touched, and derives the client's id from the public key.
    pub fn enroll(&self, req: EnrollmentRequest) -> (r: Result<Enrollment, ClientAuthError>)
        ensures
            outcome(r) == enrollment(
                req@,
                ed25519_key_valid(req@.public_key),
                sha256_text(req@.public_key),
                sha256_text(encode_utf8(req@.api_key)),
            ),
            r matches Ok(e) ==> e@.client_id.len() == 64 && e@.key_hash.len() == 64,
    {
        let key_valid: bool = req.public_key.len() == 32 && check_ed25519_key(
            req.public_key.as_slice(),
        );
        let fingerprint: String = sha256_hex(req.public_key.as_slice());
        let key_hash: String = sha256_hex(req.api_key.as_str().as_bytes());
        Enrollment::validate(req, key_valid, fingerprint, key_hash)
    }
}

impl Enrollment {
    /// Validates a request whose key has been checked and whose digests are known.
    pub fn validate(
        req: EnrollmentRequest,
        key_valid: bool,
        fingerprint: String,
        key_hash: String,
    ) -> (r: Result<Enrollment, ClientAuthError>)
        ensures
            outcome(r) == enrollment(req@, key_valid, fingerprint@, key_hash@),
    {
        let name: &str = req.client_name.as_str().trim();
        if name.is_empty() || name.unicode_len() > MAX_CLIENT_NAME_LEN {
            return Err(
                ClientAuthError::Invalid("client_name must be 1..=256 non-blank chars".to_owned()),
            );
        }
        if req.public_key.len() != 32 {
            return Err(ClientAuthError::Invalid("public_key must be 32 bytes".to_owned()));
        }
        if !key_valid {
            return Err(
                ClientAuthError::Invalid("public_key is not a valid ed25519 key".to_owned()),
            );
        }
        Ok(
            Enrollment {
                client_name: name.to_owned(),
                public_key: hex_encode(req.public_key.as_slice()),
                client_id: fingerprint,
                key_hash,
            },
        )
    }

    /// Which client record the pin is checked against.
    pub fn lookup(&self) -> (get: Get)
        ensures
            get@ == (GetFields { collection: CLIENTS@, id: self@.client_id }),
    {
        Get { collection: CLIENTS.to_owned(), id: self.client_id.clone() }
    }

    /// Checks the pin. The same key under this id is an idempotent re-enrollment, which
    /// needs no bootstrap key; another key is refused.
    pub fn check_pin(self, client: Lookup<StoredClient>) -> (r: Result<
        PinDecision,
        ClientAuthError,
    >)
        ensures
            outcome(r) == self@.pin_outcome(client@),
    {
        match client {
            Lookup::Found(stored) => {
                if !(stored.public_key == self.public_key) {
                    return Err(ClientAuthError::PinMismatch);
                }
                Ok(
                    PinDecision::Known(
                        ClientCredential {
                            client_id: stored.client_id,
                            fingerprint: stored.fingerprint,
                            enrolled_at: stored.enrolled_at,
                        },
                    ),
                )
            },
            Lookup::NotFound => Ok(PinDecision::FirstContact(FirstContact { pending: self })),
            Lookup::Failed(text) => Err(store_err(text)),
        }
    }
}

impl FirstContact {
    /// Which bootstrap key the client redeems: the record is found by the key's hash.
    pub fn lookup(&self) -> (get: Get)
        ensures
            get@ == (GetFields { collection: BOOTSTRAP_KEYS@, id: self@.key_hash }),
    {
        Get { collection: BOOTSTRAP_KEYS.to_owned(), id: self.pending.key_hash.clone() }
    }

    /// Validates the presented bootstrap key. A key that was never issued or has been
    /// consumed is refused.
    pub fn consume_bootstrap_key(self, key: Lookup<StoredBootstrapKey>) -> (r: Result<
        Redemption,
        ClientAuthError,
    >)
        ensures
            outcome(r) == self@.redemption(key@),
    {
        let stored: StoredBootstrapKey = match key {
            Lookup::Found(k) => k,
            Lookup::NotFound => {
                return Err(ClientAuthError::BadApiKey);
            },
            Lookup::Failed(text) => {
                return Err(store_err(text));
            },
        };
        let same: bool = constant_time_eq(
            stored.key_hash.as_str().as_bytes(),
            self.pending.key_hash.as_str().as_bytes(),
        );
        proof {
            if encode_utf8(stored.key_hash@) == encode_utf8(self@.key_hash) {
                crate::canonical::encode_utf8_injective(stored.key_hash@, self@.key_hash);
            }
        }
        if !same || stored.consumed {
            return Err(ClientAuthError::BadApiKey);
        }
        let id: String = self.pending.key_hash.clone();
        Ok(
            Redemption {
                pending: self.pending,
                update: Put {
                    collection: BOOTSTRAP_KEYS.to_owned(),
                    id,
                    doc: StoredBootstrapKey {
                        key_hash: stored.key_hash,
                        consumed: true,
                        issued_at: stored.issued_at,
                    },
                },
            },
        )
    }
}

impl Redemption {
    /// What to store: the bootstrap key, consumed.
    pub fn update(&self) -> (put: &Put<StoredBootstrapKey>)
        ensures
            put@ == self@.update,
    {
        &self.update
    }

    /// Goes on once the store has answered: to the client's record, or to its failure.
    pub fn redeemed(self, reply: Result<(), String>, enrolled_at: Timestamp) -> (r: Result<
        Pinning,
        ClientAuthError,
    >)
        ensures
            outcome(r) == match outcome(reply) {
                Ok(_) => Ok(self@.pin.record(enrolled_at)),
                Err(text) => Err(AuthFailure::Storage(text)),
            },
    {
        match reply {
            Ok(_) => {
                let Enrollment { client_name, public_key, client_id, key_hash: _ } = self.pending;
                let id: String = client_id.clone();
                let fingerprint: String = client_id.clone();
                Ok(
                    Pinning {
                        insert: Put {
                            collection: CLIENTS.to_owned(),
                            id,
                            doc: StoredClient {
                                client_id,
                                public_key,
                                fingerprint,
                                client_name,
                                enrolled_at,
                            },
                        },
                    },
                )
            },
            Err(text) => Err(store_err(text)),
        }
    }
}

impl Pinning {
    /// What to store: the client.
    pub fn insert(&self) -> (put: &Put<StoredClient>)
        ensures
            put@ == self@,
    {
        &self.insert
    }

    /// Gives out the credential, once the client has been stored.
    pub fn pinned(self, reply: Result<(), String>) -> (r: Result<ClientCredential, ClientAuthError>)
        ensures
            outcome(r) == match outcome(reply) {
                Ok(_) => Ok(
                    Credential {
                        client_id: self@.doc.client_id,
                        fingerprint: self@.doc.fingerprint,
                        enrolled_at: self@.doc.enrolled_at,
                    },
                ),
                Err(text) => Err(AuthFailure::Storage(text)),
            },
    {
        match reply {
            Ok(_) => Ok(
                ClientCredential {
                    client_id: self.insert.doc.client_id,
                    fingerprint: self.insert.doc.fingerprint,
                    enrolled_at: self.insert.doc.enrolled_at,
                },
            ),
            Err(text) => Err(store_err(text)),
        }
    }
}

/// Validation is complete: a request is valid if and only if its name, trimmed, has 1 to
/// 256 characters and its public key is 32 bytes that are a key. What comes out is the
/// trimmed name, the public key in hexadecimal, the fingerprint as the client's id and the
/// hash of the bootstrap key.
pub proof fn validation_is_complete(
    req: EnrollmentFields,
    key_valid: bool,
    fingerprint: Seq<char>,
    key_hash: Seq<char>,
)
    ensures
        enrollment(req, key_valid, fingerprint, key_hash) is Ok <==> 1 <= trimmed(
            req.client_name,
        ).len() && trimmed(req.client_name).len() <= 256 && req.public_key.len() == 32 && key_valid,
        enrollment(req, key_valid, fingerprint, key_hash) matches Ok(pin) ==> {
            &&& pin.client_name == trimmed(req.client_name)
            &&& pin.public_key == hex_text(req.public_key)
            &&& pin.client_id == fingerprint
            &&& pin.key_hash == key_hash
        },
{
}

/// What an invalid request is told: a bad name first, then a public key of the wrong
/// length, then one that is no key.
pub proof fn invalid_requests_are_told_why(
    req: EnrollmentFields,
    key_valid: bool,
    fingerprint: Seq<char>,
    key_hash: Seq<char>,
)
    ensures
        ({
            let answer = enrollment(req, key_valid, fingerprint, key_hash);
            let named = 1 <= trimmed(req.client_name).len() && trimmed(req.client_name).len()
                <= 256;
            &&& !named ==> answer == Err::<PendingPin, AuthFailure>(
                AuthFailure::Invalid("client_name must be 1..=256 non-blank chars"@),
            )
            &&& named && req.public_key.len() != 32 ==> answer == Err::<PendingPin, AuthFailure>(
                AuthFailure::Invalid("public_key must be 32 bytes"@),
            )
            &&& named && req.public_key.len() == 32 && !key_valid ==> answer == Err::<
                PendingPin,
                AuthFailure,
            >(AuthFailure::Invalid("public_key is not a valid ed25519 key"@))
        }),
{
}

/// A request in raw form: a name with no white space at its ends that has 1 to 256
/// characters is kept as it is, with any amount of white space around it.
pub proof fn names_within_bounds_are_kept(
    front: Seq<char>,
    name: Seq<char>,
    back: Seq<char>,
    req: EnrollmentFields,
    fingerprint: Seq<char>,
    key_hash: Seq<char>,
)
    requires
        forall|i: int| 0 <= i < front.len() ==> is_white_space(#[trigger] front[i]),
        forall|i: int| 0 <= i < back.len() ==> is_white_space(#[trigger] back[i]),
        1 <= name.len() <= 256,
        !is_white_space(name.first()),
        !is_white_space(name.last()),
        req.client_name == front + name + back,
        req.public_key.len() == 32,
    ensures
        enrollment(req, true, fingerprint, key_hash) matches Ok(pin) && pin.client_name == name,
{
    trimmed_of_padded(front, name, back);
}

/// The pin check: nobody pinned means a first contact, the same key pinned gives the pinned
/// client's credential, any other key is a mismatch, and a store failure is passed on.
pub proof fn pin_check_is_complete(pin: PendingPin, client: Fetched<ClientRecord>)
    ensures
        client is NotFound <==> pin.pin_outcome(client) is Ok && pin.pin_outcome(
            client,
        )->Ok_0 is FirstContact,
        client is NotFound ==> pin.pin_outcome(client) == Ok::<PinOutcome, AuthFailure>(
            PinOutcome::FirstContact(pin),
        ),
        client matches Fetched::Found(c) ==> {
            &&& c.public_key == pin.public_key ==> pin.pin_outcome(client) == Ok::<
                PinOutcome,
                AuthFailure,
            >(
                PinOutcome::Known(
                    Credential {
                        client_id: c.client_id,
                        fingerprint: c.fingerprint,
                        enrolled_at: c.enrolled_at,
                    },
                ),
            )
            &&& c.public_key != pin.public_key ==> pin.pin_outcome(client) == Err::<
                PinOutcome,
                AuthFailure,
            >(AuthFailure::PinMismatch)
        },
        client matches Fetched::Failed(text) ==> pin.pin_outcome(client) == Err::<
            PinOutcome,
            AuthFailure,
        >(AuthFailure::Storage(text)),
{
}

/// The check of a bootstrap key: it is redeemed if and only if its record is there, carries
/// its hash and has not been consumed. Then the same record is written back in its place,
/// consumed. A store failure is passed on; everything else is a bad key.
pub proof fn key_check_is_complete(pin: PendingPin, key: Fetched<KeyRecord>)
    ensures
        pin.redemption(key) is Ok <==> key is Found && key->Found_0.key_hash == pin.key_hash
            && !key->Found_0.consumed,
        pin.redemption(key) matches Ok(r) ==> {
            &&& r.pin == pin
            &&& r.update.collection == "bootstrap_keys"@
            &&& r.update.id == pin.key_hash
            &&& r.update.doc.consumed
            &&& r.update.doc.key_hash == pin.key_hash
            &&& r.update.doc.issued_at == key->Found_0.issued_at
        },
        key matches Fetched::Failed(text) ==> pin.redemption(key) == Err::<
            PendingRedemption,
            AuthFailure,
        >(AuthFailure::Storage(text)),
        key !is Failed && pin.redemption(key) is Err ==> pin.redemption(key) == Err::<
            PendingRedemption,
            AuthFailure,
        >(AuthFailure::BadApiKey),
{
}

/// A pinned client stands under its id, with its public key, its id as fingerprint, its
/// name and the time, and gets a credential that says the same.
pub proof fn pinned_client_is_what_it_presented(pin: PendingPin, at: Timestamp)
    ensures
        pin.record(at).collection == "clients"@,
        pin.record(at).id == pin.client_id,
        pin.record(at).doc.client_id == pin.client_id,
        pin.record(at).doc.public_key == pin.public_key,
        pin.record(at).doc.fingerprint == pin.client_id,
        pin.record(at).doc.client_name == pin.client_name,
        pin.record(at).doc.enrolled_at == at,
        pin.credential(at).client_id == pin.client_id,
        pin.credential(at).fingerprint == pin.client_id,
        pin.credential(at).enrolled_at == at,
{
}

} // verus!
