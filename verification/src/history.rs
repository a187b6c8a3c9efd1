//! What holds of the scheme over any history of operations on a store.
//!
//! The store is modelled as two maps that give back what was last written to them. An
//! operation runs from its request to its answer without another in between, which is how
//! enrollments have to be driven. An enrollment may be cut off between its two writes, by
//! a store that fails or a process that ends; cut off before the first, it leaves the
//! store as it was, and after the second, as a finished one does.

use crate::crypto::{ed25519_key_valid, ed25519_verifies, sha256, sha256_text};
use crate::enroll::{enrollment, PendingPin, PinOutcome, MAX_CLIENT_NAME_LEN};
use crate::error::AuthFailure;
use crate::hex::{hex_bytes, hex_round_trip, hex_text};
use crate::replay::{
    admission, in_window, live, live_entries, nonce_of, was_seen, well_kept_stays,
    window_open, Admission, SeenNonce, MAX_NONCE_ENTRIES,
};
use crate::scheme::{
    every_request_is_answered, every_request_leaves, key_usable, minted, signature_check_is_complete,
    signed_by, state_after, verdict, SchemeState,
};
use crate::store::{Fetched, PutFields};
use crate::text::{is_white_space, trimmed, trimmed_has_no_white_ends};
use crate::types::{
    ClientRecord, Credential, EnrollmentFields, KeyRecord, Presented, Timestamp,
};
use vstd::prelude::*;
use vstd::utf8::encode_utf8;

verus! {

/// What a store holds in the two collections of the scheme.
pub struct StoreState {
    pub clients: Map<Seq<char>, ClientRecord>,
    pub bootstrap_keys: Map<Seq<char>, KeyRecord>,
}

impl StoreState {
    /// A store with nothing in it.
    pub open spec fn empty() -> StoreState {
        StoreState { clients: Map::empty(), bootstrap_keys: Map::empty() }
    }

    /// What fetching a client gives.
    pub open spec fn fetch_client(self, id: Seq<char>) -> Fetched<ClientRecord> {
        if self.clients.contains_key(id) {
            Fetched::Found(self.clients[id])
        } else {
            Fetched::NotFound
        }
    }

    /// What fetching a bootstrap key gives.
    pub open spec fn fetch_key(self, id: Seq<char>) -> Fetched<KeyRecord> {
        if self.bootstrap_keys.contains_key(id) {
            Fetched::Found(self.bootstrap_keys[id])
        } else {
            Fetched::NotFound
        }
    }

    /// The store after a client was written.
    pub open spec fn with_client(self, put: PutFields<ClientRecord>) -> StoreState {
        StoreState {
            clients: self.clients.insert(put.id, put.doc),
            bootstrap_keys: self.bootstrap_keys,
        }
    }

    /// The store after a bootstrap key was written.
    pub open spec fn with_key(self, put: PutFields<KeyRecord>) -> StoreState {
        StoreState {
            clients: self.clients,
            bootstrap_keys: self.bootstrap_keys.insert(put.id, put.doc),
        }
    }
}

/// The validated form of a request, or why it is refused.
pub open spec fn validated(req: EnrollmentFields) -> Result<PendingPin, AuthFailure> {
    enrollment(
        req,
        ed25519_key_valid(req.public_key),
        sha256_text(req.public_key),
        sha256_text(encode_utf8(req.api_key)),
    )
}

/// Whether a request is a first contact that redeems a bootstrap key.
pub open spec fn redeems(store: StoreState, req: EnrollmentFields) -> bool {
    match validated(req) {
        Ok(pin) => store.fetch_client(pin.client_id) is NotFound && pin.redemption(
            store.fetch_key(pin.key_hash),
        ) is Ok,
        Err(_) => false,
    }
}

/// The answer to an enrollment that runs on a store: the steps of an enrollment one after
/// the other, each with the store's reply.
pub open spec fn enroll_answer(store: StoreState, req: EnrollmentFields, at: Timestamp) -> Result<
    Credential,
    AuthFailure,
> {
    match validated(req) {
        Err(e) => Err(e),
        Ok(pin) => match pin.pin_outcome(store.fetch_client(pin.client_id)) {
            Err(e) => Err(e),
            Ok(PinOutcome::Known(c)) => Ok(c),
            Ok(PinOutcome::FirstContact(new)) => match new.redemption(
                store.fetch_key(new.key_hash),
            ) {
                Err(e) => Err(e),
                Ok(redemption) => Ok(redemption.pin.credential(at)),
            },
        },
    }
}

/// The store after an enrollment.
pub open spec fn after_enroll(store: StoreState, req: EnrollmentFields, at: Timestamp) -> StoreState {
    match validated(req) {
        Err(_) => store,
        Ok(pin) => match pin.pin_outcome(store.fetch_client(pin.client_id)) {
            Ok(PinOutcome::FirstContact(new)) => match new.redemption(
                store.fetch_key(new.key_hash),
            ) {
                Err(_) => store,
                Ok(redemption) => store.with_key(redemption.update).with_client(
                    redemption.pin.record(at),
                ),
            },
            _ => store,
        },
    }
}

/// The store after an enrollment that was cut off between its two writes: its bootstrap key
/// is consumed, and its client is not there.
pub open spec fn after_cut_off(store: StoreState, req: EnrollmentFields) -> StoreState {
    match validated(req) {
        Err(_) => store,
        Ok(pin) => match pin.pin_outcome(store.fetch_client(pin.client_id)) {
            Ok(PinOutcome::FirstContact(new)) => match new.redemption(
                store.fetch_key(new.key_hash),
            ) {
                Err(_) => store,
                Ok(redemption) => store.with_key(redemption.update),
            },
            _ => store,
        },
    }
}

/// The store after a bootstrap key was issued.
pub open spec fn after_issue(store: StoreState, raw: Seq<u8>, at: Timestamp) -> StoreState {
    store.with_key(minted(raw, at).record)
}

/// An operation that writes to the store.
pub enum Operation {
    Issue { raw: Seq<u8>, at: Timestamp },
    Enroll { req: EnrollmentFields, at: Timestamp },
    CutOff { req: EnrollmentFields },
}

/// The store after an operation.
pub open spec fn after(store: StoreState, op: Operation) -> StoreState {
    match op {
        Operation::Issue { raw, at } => after_issue(store, raw, at),
        Operation::Enroll { req, at } => after_enroll(store, req, at),
        Operation::CutOff { req } => after_cut_off(store, req),
    }
}

/// The store after a sequence of operations.
pub open spec fn after_all(store: StoreState, ops: Seq<Operation>) -> StoreState
    decreases ops.len(),
{
    if ops.len() == 0 {
        store
    } else {
        after_all(after(store, ops.first()), ops.drop_first())
    }
}

/// Whether an operation issues the bootstrap key with this hash.
pub open spec fn issues(op: Operation, key_hash: Seq<char>) -> bool {
    match op {
        Operation::Issue { raw, at } => minted(raw, at).record.id == key_hash,
        _ => false,
    }
}

/// Whether an operation enrolls a new client on the bootstrap key with this hash.
pub open spec fn enrolls_on(store: StoreState, op: Operation, key_hash: Seq<char>) -> bool {
    match op {
        Operation::Enroll { req, at } => redeems(store, req) && sha256_text(
            encode_utf8(req.api_key),
        ) == key_hash,
        _ => false,
    }
}

/// How often a history issues a bootstrap key.
pub open spec fn times_issued(ops: Seq<Operation>, key_hash: Seq<char>) -> nat
    decreases ops.len(),
{
    if ops.len() == 0 {
        0
    } else {
        times_issued(ops.drop_first(), key_hash) + if issues(ops.first(), key_hash) {
            1nat
        } else {
            0nat
        }
    }
}

/// How many new clients a history enrolls on a bootstrap key.
pub open spec fn times_redeemed(store: StoreState, ops: Seq<Operation>, key_hash: Seq<char>) -> nat
    decreases ops.len(),
{
    if ops.len() == 0 {
        0
    } else {
        times_redeemed(after(store, ops.first()), ops.drop_first(), key_hash) + if enrolls_on(
            store,
            ops.first(),
            key_hash,
        ) {
            1nat
        } else {
            0nat
        }
    }
}

/// Whether a bootstrap key is in the store and has not been consumed.
pub open spec fn unused(store: StoreState, key_hash: Seq<char>) -> bool {
    store.bootstrap_keys.contains_key(key_hash) && !store.bootstrap_keys[key_hash].consumed
}

/// A bootstrap key is single-use: over any history, no more new clients are enrolled on it
/// than the times it was issued, counting an unused one in the store at the start.
pub proof fn bootstrap_key_is_single_use(
    store: StoreState,
    ops: Seq<Operation>,
    key_hash: Seq<char>,
)
    ensures
        times_redeemed(store, ops, key_hash) <= times_issued(ops, key_hash) + if unused(
            store,
            key_hash,
        ) {
            1nat
        } else {
            0nat
        },
    decreases ops.len(),
{
    if ops.len() > 0 {
        bootstrap_key_is_single_use(after(store, ops.first()), ops.drop_first(), key_hash);
    }
}

/// A consumed bootstrap key stays consumed, unless the same key is issued again.
pub proof fn consumed_key_stays_consumed(store: StoreState, ops: Seq<Operation>, key_hash: Seq<char>)
    requires
        store.bootstrap_keys.contains_key(key_hash),
        store.bootstrap_keys[key_hash].consumed,
        times_issued(ops, key_hash) == 0,
    ensures
        after_all(store, ops).bootstrap_keys.contains_key(key_hash),
        after_all(store, ops).bootstrap_keys[key_hash].consumed,
    decreases ops.len(),
{
    if ops.len() > 0 {
        consumed_key_stays_consumed(after(store, ops.first()), ops.drop_first(), key_hash);
    }
}

/// A bootstrap key that was never issued, or has been consumed, enrolls no new client: the
/// answer is `BadApiKey` and nothing is written.
pub proof fn bad_key_is_refused(store: StoreState, req: EnrollmentFields, at: Timestamp)
    requires
        validated(req) is Ok,
        store.fetch_client(sha256_text(req.public_key)) is NotFound,
        !unused(store, sha256_text(encode_utf8(req.api_key))),
    ensures
        enroll_answer(store, req, at) == Err::<Credential, AuthFailure>(AuthFailure::BadApiKey),
        after_enroll(store, req, at) == store,
{
}

/// Once a new client has been enrolled on a bootstrap key, the key is refused to every
/// other new client, whatever is issued and enrolled in between, unless the same key is
/// issued again.
pub proof fn redeemed_key_is_refused(
    store: StoreState,
    first: EnrollmentFields,
    at: Timestamp,
    ops: Seq<Operation>,
    second: EnrollmentFields,
    later: Timestamp,
)
    requires
        redeems(store, first),
        second.api_key == first.api_key,
        validated(second) is Ok,
        times_issued(ops, sha256_text(encode_utf8(first.api_key))) == 0,
        after_all(after_enroll(store, first, at), ops).fetch_client(
            sha256_text(second.public_key),
        ) is NotFound,
    ensures
        enroll_answer(after_all(after_enroll(store, first, at), ops), second, later) == Err::<
            Credential,
            AuthFailure,
        >(AuthFailure::BadApiKey),
{
    let mid = after_enroll(store, first, at);
    let key_hash = sha256_text(encode_utf8(first.api_key));
    assert(mid.bootstrap_keys.contains_key(key_hash) && mid.bootstrap_keys[key_hash].consumed);
    consumed_key_stays_consumed(mid, ops, key_hash);
    bad_key_is_refused(after_all(mid, ops), second, later);
}

/// An enrollment that is cut off uses up its bootstrap key and pins nobody: whatever is
/// issued and enrolled afterwards, the key is refused to every new client, unless the same
/// key is issued again.
pub proof fn cut_off_enrollment_uses_up_its_key(
    store: StoreState,
    first: EnrollmentFields,
    ops: Seq<Operation>,
    second: EnrollmentFields,
    later: Timestamp,
)
    requires
        redeems(store, first),
        second.api_key == first.api_key,
        validated(second) is Ok,
        times_issued(ops, sha256_text(encode_utf8(first.api_key))) == 0,
        after_all(after_cut_off(store, first), ops).fetch_client(
            sha256_text(second.public_key),
        ) is NotFound,
    ensures
        after_cut_off(store, first).clients == store.clients,
        enroll_answer(after_all(after_cut_off(store, first), ops), second, later) == Err::<
            Credential,
            AuthFailure,
        >(AuthFailure::BadApiKey),
{
    let mid = after_cut_off(store, first);
    let key_hash = sha256_text(encode_utf8(first.api_key));
    assert(mid.bootstrap_keys.contains_key(key_hash) && mid.bootstrap_keys[key_hash].consumed);
    consumed_key_stays_consumed(mid, ops, key_hash);
    bad_key_is_refused(after_all(mid, ops), second, later);
}

/// A refused enrollment writes nothing. In particular a request with a bad name or a bad
/// public key does not use up its bootstrap key.
pub proof fn refused_enrollment_writes_nothing(
    store: StoreState,
    req: EnrollmentFields,
    at: Timestamp,
)
    requires
        enroll_answer(store, req, at) is Err,
    ensures
        after_enroll(store, req, at) == store,
{
}

/// A pin never changes: whatever is issued and enrolled, a client that is in the store
/// keeps its record.
pub proof fn pins_never_change(store: StoreState, ops: Seq<Operation>, id: Seq<char>)
    requires
        store.clients.contains_key(id),
    ensures
        after_all(store, ops).clients.contains_key(id),
        after_all(store, ops).clients[id] == store.clients[id],
    decreases ops.len(),
{
    if ops.len() > 0 {
        pins_never_change(after(store, ops.first()), ops.drop_first(), id);
    }
}

/// An issued key works: a new client that presents the plaintext of an unused key with a
/// valid name and public key is enrolled, under the fingerprint of its public key.
pub proof fn issued_key_enrolls(
    store: StoreState,
    raw: Seq<u8>,
    issued_at: Timestamp,
    req: EnrollmentFields,
    at: Timestamp,
)
    requires
        validated(req) is Ok,
        req.api_key == minted(raw, issued_at).plaintext,
        store.fetch_client(sha256_text(req.public_key)) is NotFound,
    ensures
        redeems(after_issue(store, raw, issued_at), req),
        enroll_answer(after_issue(store, raw, issued_at), req, at) == Ok::<Credential, AuthFailure>(
            Credential {
                client_id: sha256_text(req.public_key),
                fingerprint: sha256_text(req.public_key),
                enrolled_at: at,
            },
        ),
{
}

/// Re-enrolling with the same public key is idempotent: it gives the credential of the
/// first enrollment again, with any bootstrap key or none, and writes nothing.
pub proof fn reenrollment_is_idempotent(
    store: StoreState,
    first: EnrollmentFields,
    at: Timestamp,
    ops: Seq<Operation>,
    again: EnrollmentFields,
    later: Timestamp,
)
    requires
        redeems(store, first),
        again.public_key == first.public_key,
        validated(again) is Ok,
    ensures
        enroll_answer(after_all(after_enroll(store, first, at), ops), again, later)
            == enroll_answer(store, first, at),
        after_enroll(after_all(after_enroll(store, first, at), ops), again, later) == after_all(
            after_enroll(store, first, at),
            ops,
        ),
{
    pins_never_change(after_enroll(store, first, at), ops, sha256_text(first.public_key));
}

/// Another key under a pinned id is refused with `PinMismatch`, and nothing is written: no
/// bootstrap key is consumed.
pub proof fn other_key_is_a_pin_mismatch(store: StoreState, req: EnrollmentFields, at: Timestamp)
    requires
        validated(req) is Ok,
        store.clients.contains_key(sha256_text(req.public_key)),
        store.clients[sha256_text(req.public_key)].public_key != hex_text(req.public_key),
    ensures
        enroll_answer(store, req, at) == Err::<Credential, AuthFailure>(AuthFailure::PinMismatch),
        after_enroll(store, req, at) == store,
{
}

/// The record that pins a client is made of its public key, its name and the time alone:
/// requests that differ in their bootstrap keys leave the same record.
pub proof fn stored_client_is_public(a: EnrollmentFields, b: EnrollmentFields, at: Timestamp)
    requires
        validated(a) is Ok,
        b.public_key == a.public_key,
        b.client_name == a.client_name,
    ensures
        validated(b) is Ok,
        validated(a)->Ok_0.record(at) == validated(b)->Ok_0.record(at),
{
}

/// The record of an issued key holds nothing of the key but its digest: keys with the same
/// digest leave the same record.
pub proof fn issued_record_holds_the_digest_only(a: Seq<u8>, b: Seq<u8>, at: Timestamp)
    requires
        sha256_text(encode_utf8(minted(a, at).plaintext)) == sha256_text(
            encode_utf8(minted(b, at).plaintext),
        ),
    ensures
        minted(a, at).record == minted(b, at).record,
        !minted(a, at).record.doc.consumed,
{
}

/// Whether a record pins the key with these bytes.
pub open spec fn pins(record: ClientRecord, key: Seq<u8>) -> bool {
    &&& key.len() == 32
    &&& ed25519_key_valid(key)
    &&& record.public_key == hex_text(key)
    &&& record.client_id == sha256_text(key)
    &&& record.fingerprint == sha256_text(key)
}

/// Whether a name is neither empty nor too long, and has no white space at its ends.
pub open spec fn proper_name(name: Seq<char>) -> bool {
    &&& 0 < name.len() <= MAX_CLIENT_NAME_LEN
    &&& !is_white_space(name.first())
    &&& !is_white_space(name.last())
}

/// What always holds of the store: each client stands under the fingerprint of a valid
/// public key that it pins, and has a proper name; each bootstrap key stands under its own
/// hash.
pub open spec fn well_formed(store: StoreState) -> bool {
    &&& forall|id: Seq<char>| #[trigger]
        store.clients.contains_key(id) ==> {
            &&& store.clients[id].client_id == id
            &&& exists|key: Seq<u8>| #[trigger] pins(store.clients[id], key)
            &&& proper_name(store.clients[id].client_name)
        }
    &&& forall|id: Seq<char>| #[trigger]
        store.bootstrap_keys.contains_key(id) ==> store.bootstrap_keys[id].key_hash == id
}

/// The store of a scheme is well formed at first and stays so.
pub proof fn store_stays_well_formed(store: StoreState, ops: Seq<Operation>)
    ensures
        well_formed(StoreState::empty()),
        well_formed(store) ==> well_formed(after_all(store, ops)),
    decreases ops.len(),
{
    if well_formed(store) && ops.len() > 0 {
        let next = after(store, ops.first());
        if let Operation::Enroll { req, at } = ops.first() {
            if redeems(store, req) {
                let id = sha256_text(req.public_key);
                assert(pins(next.clients[id], req.public_key));
                trimmed_has_no_white_ends(req.client_name);
                assert forall|other: Seq<char>| #[trigger]
                    next.clients.contains_key(other) && other != id implies {
                    &&& next.clients[other].client_id == other
                    &&& exists|key: Seq<u8>| #[trigger] pins(next.clients[other], key)
                    &&& proper_name(next.clients[other].client_name)
                } by {
                    assert(store.clients.contains_key(other));
                    assert(next.clients[other] == store.clients[other]);
                }
            }
        }
        assert(well_formed(next));
        store_stays_well_formed(next, ops.drop_first());
    }
}

/// The id of a client certifies its key: in a well-formed store `PinMismatch` means that
/// two different public keys have the same fingerprint.
pub proof fn pin_mismatch_is_a_collision(store: StoreState, req: EnrollmentFields, at: Timestamp)
    requires
        well_formed(store),
        enroll_answer(store, req, at) == Err::<Credential, AuthFailure>(AuthFailure::PinMismatch),
    ensures
        exists|key: Seq<u8>|
            key != req.public_key && #[trigger] sha256_text(key) == sha256_text(req.public_key),
{
    let id = sha256_text(req.public_key);
    assert(store.clients.contains_key(id));
    let key = choose|key: Seq<u8>| #[trigger] pins(store.clients[id], key);
    assert(sha256_text(key) == sha256_text(req.public_key));
}

/// The key that a record pins is the one its requests are verified with.
pub proof fn pinned_key_verifies(record: ClientRecord, key: Seq<u8>, p: Presented)
    requires
        pins(record, key),
    ensures
        key_usable(Fetched::Found(record)),
        signed_by(Fetched::Found(record), p) == (p.signature.len() == 64 && ed25519_verifies(
            key,
            p.canonical_request,
            p.signature,
        )),
{
    hex_round_trip(key);
}

/// A request as it reaches the scheme: what it presents, what the store holds of its
/// client, and the time.
pub struct Arrival {
    pub presented: Presented,
    pub client: Fetched<ClientRecord>,
    pub now: int,
}

impl Arrival {
    /// What the request is answered.
    pub open spec fn answer(self, state: SchemeState) -> Result<Seq<char>, AuthFailure> {
        verdict(
            state,
            self.presented,
            self.client,
            key_usable(self.client),
            signed_by(self.client, self.presented),
            self.now,
        )
    }

    /// The scheme after the request.
    pub open spec fn leaves(self, state: SchemeState) -> SchemeState {
        state_after(
            state,
            self.presented,
            self.client,
            key_usable(self.client),
            signed_by(self.client, self.presented),
            self.now,
        )
    }

    /// Whether the request comes from a known client and carries its signature.
    pub open spec fn authentic(self) -> bool {
        &&& self.client is Found
        &&& key_usable(self.client)
        &&& signed_by(self.client, self.presented)
    }

    /// Whether this uses the nonce of another request of the same client.
    pub open spec fn reuses_nonce_of(self, other: Arrival) -> bool {
        &&& self.presented.client_id == other.presented.client_id
        &&& self.presented.nonce == other.presented.nonce
    }
}

/// The scheme after a sequence of requests.
pub open spec fn after_requests(state: SchemeState, arrivals: Seq<Arrival>) -> SchemeState
    decreases arrivals.len(),
{
    if arrivals.len() == 0 {
        state
    } else {
        after_requests(arrivals.first().leaves(state), arrivals.drop_first())
    }
}

/// An enrolled client can make requests: after an enrollment, whatever is issued and
/// enrolled meanwhile, the store has a record under the credential's id, and a request
/// that the client signed is accepted as its own, if it is fresh, brings a new nonce and
/// finds room in the cache.
pub proof fn enrolled_client_verifies(
    store: StoreState,
    req: EnrollmentFields,
    at: Timestamp,
    ops: Seq<Operation>,
    state: SchemeState,
    p: Presented,
    now: int,
)
    requires
        redeems(store, req),
        p.client_id == sha256_text(req.public_key),
        p.signature.len() == 64,
        ed25519_verifies(req.public_key, p.canonical_request, p.signature),
        in_window(p.timestamp as int, now, state.skew as int),
        admission(state.seen, nonce_of(p), now, state.skew as int) == Admission::Recorded,
    ensures
        enroll_answer(store, req, at) matches Ok(c) && c.client_id == p.client_id && (Arrival {
            presented: p,
            client: after_all(after_enroll(store, req, at), ops).fetch_client(p.client_id),
            now,
        }).answer(state) == Ok::<Seq<char>, AuthFailure>(c.client_id),
{
    let mid = after_enroll(store, req, at);
    pins_never_change(mid, ops, p.client_id);
    assert(pins(mid.clients[p.client_id], req.public_key));
    pinned_key_verifies(mid.clients[p.client_id], req.public_key, p);
}

/// A client that is not in the store is answered `UnknownClient`.
pub proof fn unknown_client_is_refused(store: StoreState, state: SchemeState, p: Presented, now: int)
    requires
        !store.clients.contains_key(p.client_id),
    ensures
        (Arrival { presented: p, client: store.fetch_client(p.client_id), now }).answer(state)
            == Err::<Seq<char>, AuthFailure>(AuthFailure::UnknownClient),
{
}

/// In a well-formed store no pinned key is corrupt: a request of a pinned client is refused
/// only for its signature, its timestamp, its nonce or a full cache.
pub proof fn pinned_keys_are_usable(store: StoreState, id: Seq<char>)
    requires
        well_formed(store),
        store.clients.contains_key(id),
    ensures
        key_usable(store.fetch_client(id)),
{
    let key = choose|key: Seq<u8>| #[trigger] pins(store.clients[id], key);
    hex_round_trip(key);
}

/// In a well-formed store an accepted request is accepted as the client that it names.
pub proof fn identity_is_the_presented_client(
    store: StoreState,
    state: SchemeState,
    p: Presented,
    now: int,
)
    requires
        well_formed(store),
        (Arrival { presented: p, client: store.fetch_client(p.client_id), now }).answer(
            state,
        ) is Ok,
    ensures
        (Arrival { presented: p, client: store.fetch_client(p.client_id), now }).answer(state)
            == Ok::<Seq<char>, AuthFailure>(p.client_id),
{
}

/// A timestamp outside the window, stale or in the future, is answered `Replay`, and the
/// scheme stays as it was.
pub proof fn outside_the_window_is_refused(state: SchemeState, arrival: Arrival)
    requires
        arrival.authentic(),
        !in_window(arrival.presented.timestamp as int, arrival.now, state.skew as int),
    ensures
        arrival.answer(state) == Err::<Seq<char>, AuthFailure>(AuthFailure::Replay),
        arrival.leaves(state) == state,
{
}

/// The cache fails closed: with as many live nonces as it may hold, a new one is refused
/// with a storage error rather than admitted unrecorded.
pub proof fn full_cache_refuses(state: SchemeState, arrival: Arrival)
    requires
        arrival.authentic(),
        in_window(arrival.presented.timestamp as int, arrival.now, state.skew as int),
        live(state.seen, arrival.now, state.skew as int).len() >= MAX_NONCE_ENTRIES,
        !was_seen(
            live(state.seen, arrival.now, state.skew as int),
            arrival.presented.client_id,
            arrival.presented.nonce,
        ),
    ensures
        arrival.answer(state) == Err::<Seq<char>, AuthFailure>(
            AuthFailure::Storage("nonce cache is full"@),
        ),
{
}

/// A nonce is remembered exactly as long as a replay could be admitted: its window is open
/// at `now` if and only if its timestamp lies in the window at `now` or at a later time.
pub proof fn retention_matches_admission(timestamp: int, now: int, skew: int)
    requires
        skew >= 0,
    ensures
        window_open(timestamp, now, skew) <==> exists|later: int|
            later >= now && #[trigger] in_window(timestamp, later, skew),
{
    let later = if now >= timestamp {
        now
    } else {
        timestamp
    };
    if window_open(timestamp, now, skew) {
        assert(in_window(timestamp, later, skew));
    }
}

/// After a request that got as far as the cache, the cache holds no stale nonce.
pub proof fn stale_nonces_are_evicted(state: SchemeState, arrival: Arrival, e: SeenNonce)
    requires
        arrival.authentic(),
        in_window(arrival.presented.timestamp as int, arrival.now, state.skew as int),
        arrival.leaves(state).seen.contains(e),
    ensures
        window_open(e.timestamp as int, arrival.now, state.skew as int),
{
    let kept = live(state.seen, arrival.now, state.skew as int);
    live_entries(state.seen, arrival.now, state.skew as int);
    let i = choose|i: int|
        0 <= i < arrival.leaves(state).seen.len() && arrival.leaves(state).seen[i] == e;
    if i < kept.len() {
        assert(kept[i] == e);
        assert(kept.contains(e));
    }
}

/// A remembered nonce stays remembered over a request that comes while its window is open.
proof fn nonce_stays(state: SchemeState, arrival: Arrival, e: SeenNonce)
    requires
        state.seen.contains(e),
        window_open(e.timestamp as int, arrival.now, state.skew as int),
    ensures
        arrival.leaves(state).seen.contains(e),
        arrival.leaves(state).skew == state.skew,
{
    let kept = live(state.seen, arrival.now, state.skew as int);
    live_entries(state.seen, arrival.now, state.skew as int);
    assert(kept.contains(e));
    let i = choose|i: int| 0 <= i < kept.len() && kept[i] == e;
    assert(kept.push(nonce_of(arrival.presented))[i] == e);
}

/// A remembered nonce stays remembered over any requests that come while its window is
/// open.
proof fn nonce_stays_over(state: SchemeState, arrivals: Seq<Arrival>, e: SeenNonce)
    requires
        state.seen.contains(e),
        forall|i: int|
            0 <= i < arrivals.len() ==> window_open(
                e.timestamp as int,
                (#[trigger] arrivals[i]).now,
                state.skew as int,
            ),
    ensures
        after_requests(state, arrivals).seen.contains(e),
        after_requests(state, arrivals).skew == state.skew,
    decreases arrivals.len(),
{
    if arrivals.len() > 0 {
        let rest = arrivals.drop_first();
        assert(arrivals[0] == arrivals.first());
        nonce_stays(state, arrivals.first(), e);
        assert forall|i: int| 0 <= i < rest.len() implies window_open(
            e.timestamp as int,
            (#[trigger] rest[i]).now,
            state.skew as int,
        ) by {
            assert(rest[i] == arrivals[i + 1]);
        }
        nonce_stays_over(arrivals.first().leaves(state), rest, e);
    }
}

/// A nonce is good once: after a request was accepted, any other of the same client with
/// the same nonce is refused for as long as the window of the first is open, whatever
/// requests come in between. One that is authentic is answered `Replay`.
pub proof fn nonce_is_accepted_once(
    state: SchemeState,
    first: Arrival,
    between: Seq<Arrival>,
    second: Arrival,
)
    requires
        first.answer(state) is Ok,
        second.reuses_nonce_of(first),
        forall|i: int|
            0 <= i < between.len() ==> window_open(
                first.presented.timestamp as int,
                (#[trigger] between[i]).now,
                state.skew as int,
            ),
        window_open(first.presented.timestamp as int, second.now, state.skew as int),
    ensures
        second.answer(after_requests(first.leaves(state), between)) is Err,
        second.authentic() ==> second.answer(after_requests(first.leaves(state), between)) == Err::<
            Seq<char>,
            AuthFailure,
        >(AuthFailure::Replay),
{
    let e = nonce_of(first.presented);
    let mid = first.leaves(state);
    assert(mid.seen.last() == e);
    assert(mid.seen[mid.seen.len() - 1] == e);
    nonce_stays_over(mid, between, e);
    let end = after_requests(mid, between);
    let kept = live(end.seen, second.now, end.skew as int);
    live_entries(end.seen, second.now, end.skew as int);
    assert(kept.contains(e));
    let i = choose|i: int| 0 <= i < kept.len() && kept[i] == e;
    assert(was_seen(kept, second.presented.client_id, second.presented.nonce));
}

/// A request is accepted once: after that the same request is refused at any time, provided
/// that no request in between came at a later time than the replay. An authentic replay is
/// answered `Replay`.
pub proof fn replay_is_never_accepted(
    state: SchemeState,
    first: Arrival,
    between: Seq<Arrival>,
    replay: Arrival,
)
    requires
        first.answer(state) is Ok,
        replay.presented == first.presented,
        forall|i: int| 0 <= i < between.len() ==> (#[trigger] between[i]).now <= replay.now,
    ensures
        replay.answer(after_requests(first.leaves(state), between)) is Err,
        replay.authentic() ==> replay.answer(after_requests(first.leaves(state), between)) == Err::<
            Seq<char>,
            AuthFailure,
        >(AuthFailure::Replay),
{
    let timestamp = first.presented.timestamp as int;
    if window_open(timestamp, replay.now, state.skew as int) {
        assert forall|i: int| 0 <= i < between.len() implies window_open(
            timestamp,
            (#[trigger] between[i]).now,
            state.skew as int,
        ) by {
            assert(between[i].now <= replay.now);
        }
        nonce_is_accepted_once(state, first, between, replay);
    } else {
        skew_stays(first.leaves(state), between);
    }
}

/// The window of a scheme never changes.
pub proof fn skew_stays(state: SchemeState, arrivals: Seq<Arrival>)
    ensures
        after_requests(state, arrivals).skew == state.skew,
    decreases arrivals.len(),
{
    if arrivals.len() > 0 {
        skew_stays(arrivals.first().leaves(state), arrivals.drop_first());
    }
}

/// A well-formed scheme stays so over any requests: its window is positive, its cache is
/// bounded and holds no nonce of a client twice.
pub proof fn scheme_stays_well_formed(state: SchemeState, arrivals: Seq<Arrival>)
    requires
        state.well_formed(),
    ensures
        after_requests(state, arrivals).well_formed(),
    decreases arrivals.len(),
{
    if arrivals.len() > 0 {
        let a = arrivals.first();
        well_kept_stays(state.seen, nonce_of(a.presented), a.now, state.skew as int);
        scheme_stays_well_formed(a.leaves(state), arrivals.drop_first());
    }
}

/// A request that is not accepted is not recorded: it leaves the cache with nothing that
/// was not in it.
pub proof fn refused_request_records_nothing(state: SchemeState, arrival: Arrival, e: SeenNonce)
    requires
        arrival.answer(state) is Err,
        arrival.leaves(state).seen.contains(e),
    ensures
        state.seen.contains(e),
{
    live_entries(state.seen, arrival.now, state.skew as int);
}

/// Requests one after the other, in two parts.
proof fn after_requests_in_parts(state: SchemeState, a: Seq<Arrival>, b: Seq<Arrival>)
    ensures
        after_requests(state, a + b) == after_requests(after_requests(state, a), b),
    decreases a.len(),
{
    if a.len() > 0 {
        assert((a + b).first() == a.first());
        assert((a + b).drop_first() =~= a.drop_first() + b);
        after_requests_in_parts(a.first().leaves(state), a.drop_first(), b);
    } else {
        assert(a + b =~= b);
    }
}

/// The scheme after the first `i` requests and then the next one.
proof fn after_one_more(state: SchemeState, arrivals: Seq<Arrival>, i: int)
    requires
        0 <= i < arrivals.len(),
    ensures
        after_requests(state, arrivals.take(i + 1)) == arrivals[i].leaves(
            after_requests(state, arrivals.take(i)),
        ),
{
    let one = seq![arrivals[i]];
    assert(arrivals.take(i + 1) =~= arrivals.take(i) + one);
    after_requests_in_parts(state, arrivals.take(i), one);
    assert(one.drop_first() =~= Seq::<Arrival>::empty());
    reveal_with_fuel(after_requests, 2);
}

/// Whether the request at place `i` of a history was accepted.
pub open spec fn accepted(start: SchemeState, arrivals: Seq<Arrival>, i: int) -> bool {
    arrivals[i].answer(after_requests(start, arrivals.take(i))) is Ok
}

/// Every nonce that a scheme holds came with an accepted request, and it holds no more
/// nonces than requests have come.
pub proof fn held_nonce_was_accepted(start: SchemeState, arrivals: Seq<Arrival>, e: SeenNonce)
    requires
        start.seen == Seq::<SeenNonce>::empty(),
    ensures
        after_requests(start, arrivals).seen.len() <= arrivals.len(),
        after_requests(start, arrivals).seen.contains(e) ==> exists|i: int|
            0 <= i < arrivals.len() && #[trigger] accepted(start, arrivals, i) && nonce_of(
                arrivals[i].presented,
            ) == e,
    decreases arrivals.len(),
{
    if arrivals.len() > 0 {
        let n = arrivals.len() - 1;
        let last = arrivals[n];
        let before = arrivals.take(n);
        let state = after_requests(start, before);
        let kept = live(state.seen, last.now, state.skew as int);
        after_one_more(start, arrivals, n);
        assert(arrivals.take(n + 1) =~= arrivals);
        held_nonce_was_accepted(start, before, e);
        live_entries(state.seen, last.now, state.skew as int);
        if last.leaves(state).seen.contains(e) {
            if state.seen.contains(e) {
                let i = choose|i: int|
                    0 <= i < before.len() && #[trigger] accepted(start, before, i) && nonce_of(
                        before[i].presented,
                    ) == e;
                assert(before.take(i) =~= arrivals.take(i));
                assert(accepted(start, arrivals, i));
            } else {
                assert(!kept.contains(e));
                let k = choose|k: int|
                    0 <= k < last.leaves(state).seen.len() && last.leaves(state).seen[k] == e;
                assert(k < kept.len() ==> kept[k] == e);
                assert(e == nonce_of(last.presented));
                assert(accepted(start, arrivals, n));
            }
        }
    }
}

/// Whether the window of the request at place `h` has been open at every request after it
/// and is open at `now`.
pub open spec fn open_since(
    start: SchemeState,
    arrivals: Seq<Arrival>,
    h: int,
    now: int,
) -> bool {
    &&& forall|j: int|
        h < j < arrivals.len() ==> window_open(
            arrivals[h].presented.timestamp as int,
            (#[trigger] arrivals[j]).now,
            start.skew as int,
        )
    &&& window_open(arrivals[h].presented.timestamp as int, now, start.skew as int)
}

/// A nonce is held exactly as long as a replay could be admitted, and only for its client.
/// Over any history of requests, an authentic and fresh one
/// - is answered `Replay` if an accepted request of its client brought its nonce and the
///   window of that one has been open at every request since, this one included;
/// - is accepted if the window of every such request has closed, or there was none, and
///   the cache has room.
pub proof fn nonce_is_held_while_replayable(
    start: SchemeState,
    arrivals: Seq<Arrival>,
    last: Arrival,
)
    requires
        start.seen == Seq::<SeenNonce>::empty(),
        last.authentic(),
        in_window(last.presented.timestamp as int, last.now, start.skew as int),
    ensures
        (exists|h: int|
            0 <= h < arrivals.len() && #[trigger] accepted(start, arrivals, h)
                && last.reuses_nonce_of(arrivals[h]) && open_since(start, arrivals, h, last.now))
            ==> last.answer(after_requests(start, arrivals)) == Err::<Seq<char>, AuthFailure>(
            AuthFailure::Replay,
        ),
        (forall|h: int|
            0 <= h < arrivals.len() && #[trigger] accepted(start, arrivals, h)
                && last.reuses_nonce_of(arrivals[h]) ==> !window_open(
                arrivals[h].presented.timestamp as int,
                last.now,
                start.skew as int,
            )) && live(
            after_requests(start, arrivals).seen,
            last.now,
            start.skew as int,
        ).len() < MAX_NONCE_ENTRIES ==> last.answer(after_requests(start, arrivals)) == Ok::<
            Seq<char>,
            AuthFailure,
        >(last.client->Found_0.client_id),
{
    let end = after_requests(start, arrivals);
    let kept = live(end.seen, last.now, start.skew as int);
    skew_stays(start, arrivals);
    if exists|h: int|
        0 <= h < arrivals.len() && #[trigger] accepted(start, arrivals, h) && last.reuses_nonce_of(
            arrivals[h],
        ) && open_since(start, arrivals, h, last.now) {
        let h = choose|h: int|
            0 <= h < arrivals.len() && #[trigger] accepted(start, arrivals, h)
                && last.reuses_nonce_of(arrivals[h]) && open_since(start, arrivals, h, last.now);
        let state = after_requests(start, arrivals.take(h));
        let between = arrivals.skip(h + 1);
        skew_stays(start, arrivals.take(h));
        after_one_more(start, arrivals, h);
        assert(arrivals =~= arrivals.take(h + 1) + between);
        after_requests_in_parts(start, arrivals.take(h + 1), between);
        assert forall|i: int| 0 <= i < between.len() implies window_open(
            arrivals[h].presented.timestamp as int,
            (#[trigger] between[i]).now,
            state.skew as int,
        ) by {
            assert(between[i] == arrivals[h + 1 + i]);
        }
        nonce_is_accepted_once(state, arrivals[h], between, last);
    }
    if was_seen(kept, last.presented.client_id, last.presented.nonce) {
        let k = choose|k: int|
            0 <= k < kept.len() && (#[trigger] kept[k]).client_id == last.presented.client_id
                && kept[k].nonce == last.presented.nonce;
        live_entries(end.seen, last.now, start.skew as int);
        assert(kept.contains(kept[k]));
        held_nonce_was_accepted(start, arrivals, kept[k]);
        let h = choose|h: int|
            0 <= h < arrivals.len() && #[trigger] accepted(start, arrivals, h) && nonce_of(
                arrivals[h].presented,
            ) == kept[k];
        assert(last.reuses_nonce_of(arrivals[h]));
    }
}

/// A refused request does not use up its nonce: an authentic and fresh request is accepted
/// if none with its client id and nonce was accepted before, however many were refused,
/// and the cache has room. It has room after fewer requests than it may hold nonces.
pub proof fn refused_request_leaves_its_nonce(
    start: SchemeState,
    arrivals: Seq<Arrival>,
    last: Arrival,
)
    requires
        start.seen == Seq::<SeenNonce>::empty(),
        last.authentic(),
        in_window(last.presented.timestamp as int, last.now, start.skew as int),
        forall|h: int|
            0 <= h < arrivals.len() && last.reuses_nonce_of(arrivals[h]) ==> !#[trigger] accepted(
                start,
                arrivals,
                h,
            ),
        arrivals.len() < MAX_NONCE_ENTRIES || live(
            after_requests(start, arrivals).seen,
            last.now,
            start.skew as int,
        ).len() < MAX_NONCE_ENTRIES,
    ensures
        last.answer(after_requests(start, arrivals)) == Ok::<Seq<char>, AuthFailure>(
            last.client->Found_0.client_id,
        ),
{
    nonce_is_held_while_replayable(start, arrivals, last);
    held_nonce_was_accepted(start, arrivals, nonce_of(last.presented));
    live_entries(after_requests(start, arrivals).seen, last.now, start.skew as int);
}

/// Validation is complete: a request is valid if and only if its name, without the white
/// space around it, has 1 to 256 characters and its public key is 32 bytes that are an
/// ed25519 public key. The pin that comes out has that name, the public key in hexadecimal,
/// its SHA-256 fingerprint as the client's id, and the SHA-256 digest of the bootstrap key.
pub proof fn valid_requests_are_validated(req: EnrollmentFields)
    ensures
        validated(req) is Ok <==> 1 <= trimmed(req.client_name).len() && trimmed(
            req.client_name,
        ).len() <= 256 && req.public_key.len() == 32 && ed25519_key_valid(req.public_key),
        validated(req) matches Ok(pin) ==> {
            &&& pin.client_name == trimmed(req.client_name)
            &&& pin.public_key == hex_text(req.public_key)
            &&& pin.client_id == hex_text(sha256(req.public_key))
            &&& pin.key_hash == hex_text(sha256(encode_utf8(req.api_key)))
        },
{
}

/// First contact: a valid request of a client that is not in the store, with a bootstrap
/// key that is there unused, is granted. Afterwards the client stands under its fingerprint
/// with what it presented, the key is consumed, and everything else is as it was.
pub proof fn first_contact_is_granted(store: StoreState, req: EnrollmentFields, at: Timestamp)
    requires
        1 <= trimmed(req.client_name).len() <= 256,
        req.public_key.len() == 32,
        ed25519_key_valid(req.public_key),
        !store.clients.contains_key(hex_text(sha256(req.public_key))),
        store.bootstrap_keys.contains_key(hex_text(sha256(encode_utf8(req.api_key)))),
        store.bootstrap_keys[hex_text(sha256(encode_utf8(req.api_key)))].key_hash == hex_text(
            sha256(encode_utf8(req.api_key)),
        ),
        !store.bootstrap_keys[hex_text(sha256(encode_utf8(req.api_key)))].consumed,
    ensures
        ({
            let id = hex_text(sha256(req.public_key));
            let key_hash = hex_text(sha256(encode_utf8(req.api_key)));
            let next = after_enroll(store, req, at);
            &&& enroll_answer(store, req, at) == Ok::<Credential, AuthFailure>(
                Credential { client_id: id, fingerprint: id, enrolled_at: at },
            )
            &&& next.clients == store.clients.insert(
                id,
                ClientRecord {
                    client_id: id,
                    public_key: hex_text(req.public_key),
                    fingerprint: id,
                    client_name: trimmed(req.client_name),
                    enrolled_at: at,
                },
            )
            &&& next.bootstrap_keys == store.bootstrap_keys.insert(
                key_hash,
                KeyRecord {
                    key_hash,
                    consumed: true,
                    issued_at: store.bootstrap_keys[key_hash].issued_at,
                },
            )
        }),
{
}

/// An accepted request is authentic and timely: the record of its client holds 32 bytes in
/// hexadecimal that are an ed25519 public key, its 64 signature bytes verify under them over
/// its canonical bytes, and its timestamp is at most the window off. It is accepted as the
/// client of the record.
pub proof fn accepted_request_is_authentic(state: SchemeState, arrival: Arrival)
    requires
        arrival.answer(state) is Ok,
    ensures
        arrival.authentic(),
        exists|key: Seq<u8>|
            {
                &&& arrival.client is Found
                &&& key.len() == 32
                &&& hex_bytes(encode_utf8(arrival.client->Found_0.public_key)) == Some(key)
                &&& ed25519_key_valid(key)
                &&& arrival.presented.signature.len() == 64
                &&& #[trigger] ed25519_verifies(
                    key,
                    arrival.presented.canonical_request,
                    arrival.presented.signature,
                )
            },
        arrival.now - state.skew <= arrival.presented.timestamp,
        arrival.presented.timestamp <= arrival.now + state.skew,
        arrival.answer(state)->Ok_0 == arrival.client->Found_0.client_id,
{
    let key_ok = key_usable(arrival.client);
    let signature_ok = signed_by(arrival.client, arrival.presented);
    every_request_is_answered(
        state,
        arrival.presented,
        arrival.client,
        key_ok,
        signature_ok,
        arrival.now,
    );
    signature_check_is_complete(arrival.client, arrival.presented);
}

/// A request without the signature of the pinned key is answered `BadSignature` at any
/// time, and leaves the scheme as it was.
pub proof fn badly_signed_request_is_refused(
    state: SchemeState,
    record: ClientRecord,
    key: Seq<u8>,
    p: Presented,
    now: int,
)
    requires
        key.len() == 32,
        ed25519_key_valid(key),
        record.public_key == hex_text(key),
        p.signature.len() != 64 || !ed25519_verifies(key, p.canonical_request, p.signature),
    ensures
        (Arrival { presented: p, client: Fetched::Found(record), now }).answer(state) == Err::<
            Seq<char>,
            AuthFailure,
        >(AuthFailure::BadSignature),
        (Arrival { presented: p, client: Fetched::Found(record), now }).leaves(state) == state,
{
    hex_round_trip(key);
    let client = Fetched::Found(record);
    every_request_is_answered(state, p, client, key_usable(client), signed_by(client, p), now);
    every_request_leaves(state, p, client, key_usable(client), signed_by(client, p), now);
}

/// A request that carries the signature of the pinned key is accepted as the client of the
/// record if its timestamp is at most the window off, before or after, no entry that is
/// young enough has its client id and nonce, and fewer than a million are young enough. Its
/// nonce is then remembered with its timestamp.
pub proof fn well_signed_request_is_accepted(
    state: SchemeState,
    record: ClientRecord,
    key: Seq<u8>,
    p: Presented,
    now: int,
)
    requires
        key.len() == 32,
        ed25519_key_valid(key),
        record.public_key == hex_text(key),
        p.signature.len() == 64,
        ed25519_verifies(key, p.canonical_request, p.signature),
        now - state.skew <= p.timestamp,
        p.timestamp <= now + state.skew,
        forall|i: int|
            0 <= i < state.seen.len() && (#[trigger] state.seen[i]).client_id == p.client_id
                && state.seen[i].nonce == p.nonce ==> now - state.seen[i].timestamp > state.skew,
        state.seen.filter(|e: SeenNonce| now - e.timestamp <= state.skew).len() < 1_000_000,
    ensures
        (Arrival { presented: p, client: Fetched::Found(record), now }).answer(state) == Ok::<
            Seq<char>,
            AuthFailure,
        >(record.client_id),
        (Arrival { presented: p, client: Fetched::Found(record), now }).leaves(state).seen.contains(
            SeenNonce { client_id: p.client_id, nonce: p.nonce, timestamp: p.timestamp },
        ),
{
    hex_round_trip(key);
    let client = Fetched::Found(record);
    let skew = state.skew as int;
    let f = |e: SeenNonce| now - e.timestamp <= state.skew;
    let g = |e: SeenNonce| now - e.timestamp <= skew;
    assert(f =~= g);
    every_request_is_answered(state, p, client, key_usable(client), signed_by(client, p), now);
    every_request_leaves(state, p, client, key_usable(client), signed_by(client, p), now);
    let seen = (Arrival { presented: p, client, now }).leaves(state).seen;
    assert(seen[seen.len() - 1] == nonce_of(p));
}

/// A timestamp more than the window off, before or after, is answered `Replay` however well
/// the request is signed, and leaves the scheme as it was.
pub proof fn untimely_request_is_refused(
    state: SchemeState,
    record: ClientRecord,
    key: Seq<u8>,
    p: Presented,
    now: int,
)
    requires
        key.len() == 32,
        ed25519_key_valid(key),
        record.public_key == hex_text(key),
        p.signature.len() == 64,
        ed25519_verifies(key, p.canonical_request, p.signature),
        p.timestamp < now - state.skew || p.timestamp > now + state.skew,
    ensures
        (Arrival { presented: p, client: Fetched::Found(record), now }).answer(state) == Err::<
            Seq<char>,
            AuthFailure,
        >(AuthFailure::Replay),
        (Arrival { presented: p, client: Fetched::Found(record), now }).leaves(state) == state,
{
    hex_round_trip(key);
    let client = Fetched::Found(record);
    every_request_is_answered(state, p, client, key_usable(client), signed_by(client, p), now);
    every_request_leaves(state, p, client, key_usable(client), signed_by(client, p), now);
}

} // verus!
