//! The scheme: setting it up, minting bootstrap keys and verifying requests.

use crate::crypto::{
    check_ed25519_key, check_ed25519_signature, ed25519_key_valid, ed25519_verifies, random_bytes,
    sha256, sha256_hex, sha256_text,
};
use crate::error::{outcome, store_err, AuthFailure, ClientAuthError};
use crate::hex::{hex_bytes, hex_decode, hex_encode, hex_round_trip, hex_text};
use crate::replay::{
    admission, cache_answers, entries_after, in_window, is_fresh, nonce_of, well_kept, Admission,
    ReplayCache, SeenNonce, DEFAULT_SKEW_SECS,
};
use crate::store::{
    CollectionFields, CollectionSpec, Fetched, Get, GetFields, Lookup, Put, PutFields,
    BOOTSTRAP_KEYS, CLIENTS,
};
use crate::types::{
    ClientIdentity, ClientRecord, KeyRecord, Presented, PresentedClientAuth, StoredBootstrapKey,
    StoredClient, Timestamp,
};
use vstd::prelude::*;
use vstd::utf8::encode_utf8;

verus! {

/// Trust-on-first-use client-authentication scheme.
#[derive(Debug)]
pub struct TofuClientAuth {
    skew_secs: i64,
    /// Recently seen nonces; stale ones are evicted on each verification.
    seen_nonces: ReplayCache,
}

/// A [`TofuClientAuth`] as a mathematical value.
pub struct SchemeState {
    /// Permitted clock skew to either side, in seconds.
    pub skew: i64,
    /// The nonces that are remembered.
    pub seen: Seq<SeenNonce>,
}

impl SchemeState {
    /// The window is not empty and the cache is well kept.
    pub open spec fn well_formed(self) -> bool {
        &&& self.skew > 0
        &&& well_kept(self.seen)
    }
}

impl View for TofuClientAuth {
    type V = SchemeState;

    closed spec fn view(&self) -> SchemeState {
        SchemeState { skew: self.skew_secs, seen: self.seen_nonces@ }
    }
}

/// A scheme that waits for the `clients` collection to exist.
#[derive(Debug)]
pub struct EnsureClients {
    skew_secs: i64,
}

impl View for EnsureClients {
    type V = i64;

    /// The permitted clock skew.
    closed spec fn view(&self) -> i64 {
        self.skew_secs
    }
}

/// A scheme that waits for the `bootstrap_keys` collection to exist.
#[derive(Debug)]
pub struct EnsureBootstrapKeys {
    skew_secs: i64,
}

impl View for EnsureBootstrapKeys {
    type V = i64;

    /// The permitted clock skew.
    closed spec fn view(&self) -> i64 {
        self.skew_secs
    }
}

/// A collection with one indexed field.
fn indexed_collection(name: &str, field: &str) -> (c: CollectionSpec)
    ensures
        c@ == (CollectionFields { name: name@, indexed_fields: seq![field@] }),
{
    let mut indexed_fields: Vec<String> = Vec::new();
    indexed_fields.push(field.to_owned());
    let c = CollectionSpec { name: name.to_owned(), indexed_fields };
    assert(c@.indexed_fields =~= seq![field@]);
    c
}

impl EnsureClients {
    /// The window is not empty.
    #[verifier::type_invariant]
    spec fn positive_skew(self) -> bool {
        self.skew_secs > 0
    }

    /// The collection of pinned clients, indexed by fingerprint.
    pub fn collection(&self) -> (c: CollectionSpec)
        ensures
            c@ == (CollectionFields { name: CLIENTS@, indexed_fields: seq!["fingerprint"@] }),
    {
        indexed_collection(CLIENTS, "fingerprint")
    }

    /// Goes on once the store has answered: to the second collection, or to its failure.
    pub fn ensured(self, reply: Result<(), String>) -> (r: Result<
        EnsureBootstrapKeys,
        ClientAuthError,
    >)
        ensures
            outcome(r) == match outcome(reply) {
                Ok(_) => Ok(self@),
                Err(text) => Err(AuthFailure::Storage(text)),
            },
    {
        proof {
            use_type_invariant(&self);
        }
        match reply {
            Ok(_) => Ok(EnsureBootstrapKeys { skew_secs: self.skew_secs }),
            Err(text) => Err(store_err(text)),
        }
    }
}

impl EnsureBootstrapKeys {
    /// The window is not empty.
    #[verifier::type_invariant]
    spec fn positive_skew(self) -> bool {
        self.skew_secs > 0
    }

    /// The collection of bootstrap keys, indexed by hash.
    pub fn collection(&self) -> (c: CollectionSpec)
        ensures
            c@ == (CollectionFields { name: BOOTSTRAP_KEYS@, indexed_fields: seq!["key_hash"@] }),
    {
        indexed_collection(BOOTSTRAP_KEYS, "key_hash")
    }

    /// Goes on once the store has answered: to the scheme, which has seen no nonce yet, or
    /// to the store's failure.
    pub fn ensured(self, reply: Result<(), String>) -> (r: Result<TofuClientAuth, ClientAuthError>)
        ensures
            outcome(r) == match outcome(reply) {
                Ok(_) => Ok(SchemeState { skew: self@, seen: Seq::empty() }),
                Err(text) => Err(AuthFailure::Storage(text)),
            },
            r matches Ok(scheme) ==> scheme@.well_formed(),
    {
        proof {
            use_type_invariant(&self);
        }
        match reply {
            Ok(_) => Ok(
                TofuClientAuth { skew_secs: self.skew_secs, seen_nonces: ReplayCache::new() },
            ),
            Err(text) => Err(store_err(text)),
        }
    }
}

/// A minted bootstrap key that waits for its record to be stored.
pub struct IssuedKey {
    plaintext: String,
    record: Put<StoredBootstrapKey>,
}

/// An [`IssuedKey`] as a mathematical value.
pub struct MintedKey {
    pub plaintext: Seq<char>,
    pub record: PutFields<KeyRecord>,
}

impl View for IssuedKey {
    type V = MintedKey;

    closed spec fn view(&self) -> MintedKey {
        MintedKey { plaintext: self.plaintext@, record: self.record@ }
    }
}

/// The record that is written for a new key: its hash, under the hash as id, not consumed.
pub open spec fn unused_key(key_hash: Seq<char>, issued_at: Timestamp) -> PutFields<KeyRecord> {
    PutFields {
        collection: BOOTSTRAP_KEYS@,
        id: key_hash,
        doc: KeyRecord { key_hash, consumed: false, issued_at },
    }
}

/// The key that 32 random bytes make: their hexadecimal text, known to the store only by
/// the digest of that text.
pub open spec fn minted(raw: Seq<u8>, issued_at: Timestamp) -> MintedKey {
    MintedKey {
        plaintext: hex_text(raw),
        record: unused_key(sha256_text(encode_utf8(hex_text(raw))), issued_at),
    }
}

impl IssuedKey {
    /// A key with its plaintext and the digest text by which the store will know it.
    pub fn new(plaintext: String, key_hash: String, issued_at: Timestamp) -> (key: IssuedKey)
        ensures
            key@ == (MintedKey {
                plaintext: plaintext@,
                record: unused_key(key_hash@, issued_at),
            }),
    {
        let id: String = key_hash.clone();
        IssuedKey {
            plaintext,
            record: Put {
                collection: BOOTSTRAP_KEYS.to_owned(),
                id,
                doc: StoredBootstrapKey { key_hash, consumed: false, issued_at },
            },
        }
    }

    /// What to store: the key's hash, never its plaintext.
    pub fn record(&self) -> (put: &Put<StoredBootstrapKey>)
        ensures
            put@ == self@.record,
    {
        &self.record
    }

    /// Gives the plaintext out, once the record has been stored.
    pub fn recorded(self, reply: Result<(), String>) -> (r: Result<String, ClientAuthError>)
        ensures
            outcome(r) == match outcome(reply) {
                Ok(_) => Ok(self@.plaintext),
                Err(text) => Err(AuthFailure::Storage(text)),
            },
    {
        match reply {
            Ok(_) => Ok(self.plaintext),
            Err(text) => Err(store_err(text)),
        }
    }
}

/// The 32 key bytes that a stored hexadecimal text stands for.
pub open spec fn pinned_key(text: Seq<char>) -> Option<Seq<u8>> {
    match hex_bytes(encode_utf8(text)) {
        Some(key) => if key.len() == 32 {
            Some(key)
        } else {
            None
        },
        None => None,
    }
}

/// Whether the record holds a key that signatures can be checked with.
pub open spec fn key_usable(client: Fetched<ClientRecord>) -> bool {
    match client {
        Fetched::Found(c) => match pinned_key(c.public_key) {
            Some(key) => ed25519_key_valid(key),
            None => false,
        },
        _ => false,
    }
}

/// Whether the presented signature is one of the record's key over the presented bytes.
pub open spec fn signed_by(client: Fetched<ClientRecord>, p: Presented) -> bool {
    match client {
        Fetched::Found(c) => match pinned_key(c.public_key) {
            Some(key) => p.signature.len() == 64 && ed25519_verifies(
                key,
                p.canonical_request,
                p.signature,
            ),
            None => false,
        },
        _ => false,
    }
}

/// Whether a request gets as far as the replay cache: its client is known, its signature
/// is good and its timestamp lies in the window.
pub open spec fn reaches_cache(
    state: SchemeState,
    p: Presented,
    client: Fetched<ClientRecord>,
    key_ok: bool,
    signature_ok: bool,
    now: int,
) -> bool {
    &&& client is Found
    &&& key_ok
    &&& signature_ok
    &&& in_window(p.timestamp as int, now, state.skew as int)
}

/// What a request is answered.
pub open spec fn verdict(
    state: SchemeState,
    p: Presented,
    client: Fetched<ClientRecord>,
    key_ok: bool,
    signature_ok: bool,
    now: int,
) -> Result<Seq<char>, AuthFailure> {
    match client {
        Fetched::NotFound => Err(AuthFailure::UnknownClient),
        Fetched::Failed(text) => Err(AuthFailure::Storage(text)),
        Fetched::Found(c) => if !key_ok {
            Err(AuthFailure::Storage("stored public key is corrupt"@))
        } else if !signature_ok {
            Err(AuthFailure::BadSignature)
        } else if !in_window(p.timestamp as int, now, state.skew as int) {
            Err(AuthFailure::Replay)
        } else {
            match admission(state.seen, nonce_of(p), now, state.skew as int) {
                Admission::Recorded => Ok(c.client_id),
                Admission::Seen => Err(AuthFailure::Replay),
                Admission::Full => Err(AuthFailure::Storage("nonce cache is full"@)),
            }
        },
    }
}

/// The scheme after a request was answered: only one that gets as far as the replay cache
/// changes it.
pub open spec fn state_after(
    state: SchemeState,
    p: Presented,
    client: Fetched<ClientRecord>,
    key_ok: bool,
    signature_ok: bool,
    now: int,
) -> SchemeState {
    if reaches_cache(state, p, client, key_ok, signature_ok, now) {
        SchemeState {
            skew: state.skew,
            seen: entries_after(state.seen, nonce_of(p), now, state.skew as int),
        }
    } else {
        state
    }
}

impl TofuClientAuth {
    /// A scheme with the default window of [`DEFAULT_SKEW_SECS`].
    pub fn new() -> (r: Result<EnsureClients, ClientAuthError>)
        ensures
            outcome(r) == Ok::<i64, AuthFailure>(DEFAULT_SKEW_SECS),
            outcome(r) == Ok::<i64, AuthFailure>(300),
    {
        Self::with_skew(DEFAULT_SKEW_SECS)
    }

    /// As [`new`](Self::new) but with an explicit skew and replay window in seconds. The
    /// collections of the scheme are to be ensured next.
    pub fn with_skew(skew_secs: i64) -> (r: Result<EnsureClients, ClientAuthError>)
        ensures
            outcome(r) == if skew_secs <= 0 {
                Err(AuthFailure::Invalid("skew_secs must be positive"@))
            } else {
                Ok(skew_secs)
            },
    {
        if skew_secs <= 0 {
            return Err(ClientAuthError::Invalid("skew_secs must be positive".to_owned()));
        }
        Ok(EnsureClients { skew_secs })
    }

    /// Mints a single-use bootstrap key of 256 random bits. Only its SHA-256 hash is to be
    /// stored; the plaintext comes out once that is done, and cannot be recovered.
    pub fn issue_bootstrap_key(&self, issued_at: Timestamp) -> (key: IssuedKey)
        ensures
            exists|raw: Seq<u8>| raw.len() == 32 && key@ == #[trigger] minted(raw, issued_at),
            key@.plaintext.len() == 64,
            key@.record.id.len() == 64,
    {
        let raw: [u8; 32] = random_bytes();
        self.issue_from_entropy(&raw, issued_at)
    }

    /// The bootstrap key that the given random bytes make.
    pub fn issue_from_entropy(&self, raw: &[u8; 32], issued_at: Timestamp) -> (key: IssuedKey)
        ensures
            key@ == minted(raw@, issued_at),
            key@.plaintext.len() == 64,
            key@.record.id.len() == 64,
    {
        let plaintext: String = hex_encode(raw.as_slice());
        let key_hash: String = sha256_hex(plaintext.as_str().as_bytes());
        IssuedKey::new(plaintext, key_hash, issued_at)
    }

    /// Which record a request is to be verified against.
    pub fn verify_lookup(&self, presented: &PresentedClientAuth) -> (get: Get)
        ensures
            get@ == (GetFields { collection: CLIENTS@, id: presented@.client_id }),
    {
        Get { collection: CLIENTS.to_owned(), id: presented.client_id.clone() }
    }

    /// Verifies a request against the record of its client: the signature over the
    /// canonical bytes, the timestamp against the window around `now`, and the nonce
    /// against those seen before.
    pub fn verify(
        &mut self,
        presented: &PresentedClientAuth,
        client: Lookup<StoredClient>,
        now: i64,
    ) -> (r: Result<ClientIdentity, ClientAuthError>)
        ensures
            outcome(r) == verdict(
                old(self)@,
                presented@,
                client@,
                key_usable(client@),
                signed_by(client@, presented@),
                now as int,
            ),
            final(self)@ == state_after(
                old(self)@,
                presented@,
                client@,
                key_usable(client@),
                signed_by(client@, presented@),
                now as int,
            ),
            old(self)@.well_formed() ==> final(self)@.well_formed(),
    {
        let (key_ok, signature_ok) = Self::check_signature(presented, &client);
        self.verify_checked(presented, client, key_ok, signature_ok, now)
    }

    /// Verifies a request whose key and signature have been checked already.
    pub fn verify_checked(
        &mut self,
        presented: &PresentedClientAuth,
        client: Lookup<StoredClient>,
        key_ok: bool,
        signature_ok: bool,
        now: i64,
    ) -> (r: Result<ClientIdentity, ClientAuthError>)
        ensures
            outcome(r) == verdict(
                old(self)@,
                presented@,
                client@,
                key_ok,
                signature_ok,
                now as int,
            ),
            final(self)@ == state_after(
                old(self)@,
                presented@,
                client@,
                key_ok,
                signature_ok,
                now as int,
            ),
            old(self)@.well_formed() ==> final(self)@.well_formed(),
    {
        if let Some(refusal) = self.precheck(presented, &client, key_ok, signature_ok, now) {
            return Err(refusal);
        }
        let client_id: String = match client {
            Lookup::Found(stored) => stored.client_id,
            _ => {
                return Err(ClientAuthError::UnknownClient);
            },
        };
        match self.seen_nonces.check_and_record(presented, now, self.skew_secs) {
            Admission::Recorded => Ok(ClientIdentity { client_id }),
            Admission::Seen => Err(ClientAuthError::Replay),
            Admission::Full => Err(ClientAuthError::Storage("nonce cache is full".to_owned())),
        }
    }

    /// What a request is refused for before the nonce cache is asked, if anything: its
    /// client, the pinned key, the signature or the timestamp, in this order.
    pub fn precheck(
        &self,
        presented: &PresentedClientAuth,
        client: &Lookup<StoredClient>,
        key_ok: bool,
        signature_ok: bool,
        now: i64,
    ) -> (refusal: Option<ClientAuthError>)
        ensures
            match refusal {
                Some(e) => {
                    &&& !reaches_cache(self@, presented@, client@, key_ok, signature_ok, now as int)
                    &&& verdict(self@, presented@, client@, key_ok, signature_ok, now as int)
                        == Err::<Seq<char>, AuthFailure>(e@)
                },
                None => reaches_cache(
                    self@,
                    presented@,
                    client@,
                    key_ok,
                    signature_ok,
                    now as int,
                ),
            },
    {
        match client {
            Lookup::NotFound => Some(ClientAuthError::UnknownClient),
            Lookup::Failed(text) => Some(store_err(text.clone())),
            Lookup::Found(_) => {
                if !key_ok {
                    Some(ClientAuthError::Storage("stored public key is corrupt".to_owned()))
                } else if !signature_ok {
                    Some(ClientAuthError::BadSignature)
                } else if !is_fresh(presented.timestamp, now, self.skew_secs) {
                    Some(ClientAuthError::Replay)
                } else {
                    None
                }
            },
        }
    }

    /// Checks the pinned key, and the presented signature under it if the key is usable.
    pub fn check_signature(
        presented: &PresentedClientAuth,
        client: &Lookup<StoredClient>,
    ) -> (r: (bool, bool))
        ensures
            r.0 == key_usable(client@),
            r.1 == (key_usable(client@) && signed_by(client@, presented@)),
    {
        match client {
            Lookup::Found(stored) => match hex_decode(stored.public_key.as_str()) {
                Ok(key) => {
                    if key.len() != 32 || !check_ed25519_key(key.as_slice()) {
                        return (false, false);
                    }
                    let signature_ok: bool = presented.signature.len() == 64
                        && check_ed25519_signature(
                        key.as_slice(),
                        presented.canonical_request.as_slice(),
                        presented.signature.as_slice(),
                    );
                    (true, signature_ok)
                },
                Err(_) => (false, false),
            },
            _ => (false, false),
        }
    }
}

/// The bytes of a stored key: 32 bytes whose hexadecimal text, in either case, the record
/// holds.
pub proof fn pinned_key_is_hex(text: Seq<char>, key: Seq<u8>)
    ensures
        pinned_key(text) == Some(key) <==> key.len() == 32 && hex_bytes(encode_utf8(text)) == Some(
            key,
        ),
        pinned_key(text) is Some <==> hex_bytes(encode_utf8(text)) is Some && hex_bytes(
            encode_utf8(text),
        )->0.len() == 32,
        text == hex_text(key) && key.len() == 32 ==> pinned_key(text) == Some(key),
{
    hex_round_trip(key);
}

/// What is checked of a request against the record of its client. The key is usable if and
/// only if the record holds 32 bytes in hexadecimal that are an ed25519 public key; the
/// request is signed if and only if it carries 64 bytes that verify, under those 32 bytes,
/// as a signature over its canonical bytes. Without a record there is neither.
pub proof fn signature_check_is_complete(client: Fetched<ClientRecord>, p: Presented)
    ensures
        key_usable(client) <==> exists|key: Seq<u8>|
            client is Found && key.len() == 32 && hex_bytes(encode_utf8(client->Found_0.public_key))
                == Some(key) && #[trigger] ed25519_key_valid(key),
        signed_by(client, p) <==> exists|key: Seq<u8>|
            client is Found && key.len() == 32 && hex_bytes(encode_utf8(client->Found_0.public_key))
                == Some(key) && p.signature.len() == 64 && #[trigger] ed25519_verifies(
                key,
                p.canonical_request,
                p.signature,
            ),
{
    if client is Found {
        let text = client->Found_0.public_key;
        if pinned_key(text) is Some {
            let key = pinned_key(text)->0;
            if key_usable(client) {
                assert(ed25519_key_valid(key));
            }
            if signed_by(client, p) {
                assert(ed25519_verifies(key, p.canonical_request, p.signature));
            }
        }
    }
}

/// What every request is answered. An unknown client, a failed store, an unusable key, a
/// bad signature and a timestamp more than `skew` seconds off are refused in this order.
/// Then a nonce that the client has used is refused as a replay, if the entry is at most
/// `skew` seconds old, and any other nonce if a million entries are no older than that.
/// Everything else, and nothing else, is accepted, as the client of the record.
pub proof fn every_request_is_answered(
    state: SchemeState,
    p: Presented,
    client: Fetched<ClientRecord>,
    key_ok: bool,
    signature_ok: bool,
    now: int,
)
    ensures
        ({
            let answer = verdict(state, p, client, key_ok, signature_ok, now);
            let timely = now - state.skew <= p.timestamp && p.timestamp <= now + state.skew;
            let used = exists|i: int|
                0 <= i < state.seen.len() && (#[trigger] state.seen[i]).client_id == p.client_id
                    && state.seen[i].nonce == p.nonce && now - state.seen[i].timestamp
                    <= state.skew;
            let skew = state.skew as int;
            let young = state.seen.filter(|e: SeenNonce| now - e.timestamp <= skew);
            let good = client is Found && key_ok && signature_ok;
            &&& answer is Ok <==> good && timely && !used && young.len() < 1_000_000
            &&& answer matches Ok(id) ==> id == client->Found_0.client_id
            &&& client is NotFound <==> answer == Err::<Seq<char>, AuthFailure>(
                AuthFailure::UnknownClient,
            )
            &&& client matches Fetched::Failed(text) ==> answer == Err::<Seq<char>, AuthFailure>(
                AuthFailure::Storage(text),
            )
            &&& client is Found && !key_ok ==> answer == Err::<Seq<char>, AuthFailure>(
                AuthFailure::Storage("stored public key is corrupt"@),
            )
            &&& client is Found && key_ok && !signature_ok <==> answer == Err::<
                Seq<char>,
                AuthFailure,
            >(AuthFailure::BadSignature)
            &&& good && (!timely || used) <==> answer == Err::<Seq<char>, AuthFailure>(
                AuthFailure::Replay,
            )
            &&& good && timely && !used && young.len() >= 1_000_000 ==> answer == Err::<
                Seq<char>,
                AuthFailure,
            >(AuthFailure::Storage("nonce cache is full"@))
        }),
{
    let skew = state.skew as int;
    cache_answers(state.seen, nonce_of(p), now, skew);
}

/// What a request leaves behind. One that is refused for its client, its key, its signature
/// or its timestamp leaves the scheme as it was. Any other one drops the entries that are
/// more than `skew` seconds old, and adds its own nonce if and only if it is accepted. The
/// window stays.
pub proof fn every_request_leaves(
    state: SchemeState,
    p: Presented,
    client: Fetched<ClientRecord>,
    key_ok: bool,
    signature_ok: bool,
    now: int,
)
    ensures
        ({
            let answer = verdict(state, p, client, key_ok, signature_ok, now);
            let after = state_after(state, p, client, key_ok, signature_ok, now);
            let timely = now - state.skew <= p.timestamp && p.timestamp <= now + state.skew;
            let skew = state.skew as int;
            let young = state.seen.filter(|e: SeenNonce| now - e.timestamp <= skew);
            let good = client is Found && key_ok && signature_ok;
            let entry = SeenNonce {
                client_id: p.client_id,
                nonce: p.nonce,
                timestamp: p.timestamp,
            };
            &&& reaches_cache(state, p, client, key_ok, signature_ok, now) <==> good && timely
            &&& !(good && timely) ==> after == state
            &&& good && timely && answer is Err ==> after.seen == young
            &&& answer is Ok ==> after.seen == young.push(entry)
            &&& after.skew == state.skew
        }),
{
    let skew = state.skew as int;
    cache_answers(state.seen, nonce_of(p), now, skew);
}

/// Minting loses none of the random bytes: the plaintext reads back as all of them, so
/// different bytes make different keys.
pub proof fn minting_keeps_all_entropy(a: Seq<u8>, b: Seq<u8>, at: Timestamp, later: Timestamp)
    ensures
        hex_bytes(encode_utf8(minted(a, at).plaintext)) == Some(a),
        minted(a, at).plaintext == hex_text(a),
        minted(a, at).plaintext == minted(b, later).plaintext ==> a == b,
{
    hex_round_trip(a);
    hex_round_trip(b);
}

/// A new key is known to the store by the SHA-256 digest of its plaintext alone: that is
/// its id and its only content, beside the time. It has not been consumed.
pub proof fn minted_record_is_the_hash(raw: Seq<u8>, at: Timestamp)
    ensures
        minted(raw, at).record.collection == "bootstrap_keys"@,
        minted(raw, at).record.id == hex_text(sha256(encode_utf8(minted(raw, at).plaintext))),
        minted(raw, at).record.doc.key_hash == minted(raw, at).record.id,
        !minted(raw, at).record.doc.consumed,
        minted(raw, at).record.doc.issued_at == at,
{
}

/// The record of a key is that of its hash, whatever the hash is.
pub proof fn unused_key_fields(key_hash: Seq<char>, at: Timestamp)
    ensures
        unused_key(key_hash, at).collection == "bootstrap_keys"@,
        unused_key(key_hash, at).id == key_hash,
        unused_key(key_hash, at).doc.key_hash == key_hash,
        !unused_key(key_hash, at).doc.consumed,
        unused_key(key_hash, at).doc.issued_at == at,
{
}

} // verus!
