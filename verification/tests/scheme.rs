use std::collections::HashMap;

use ed25519_dalek::{Signer, SigningKey};
use rand::rngs::OsRng;
use sha2::{Digest, Sha256};

use wyrtloom_clientauth_tofu::crypto::sha256_hex;
use wyrtloom_clientauth_tofu::enroll::{Enrollment, PinDecision};
use wyrtloom_clientauth_tofu::hex::hex_encode;
use wyrtloom_clientauth_tofu::store::{Lookup, BOOTSTRAP_KEYS, CLIENTS};
use wyrtloom_clientauth_tofu::{
    canonicalize, ClientAuthError, ClientCredential, ClientIdentity, EnrollmentRequest,
    PresentedClientAuth, StoredBootstrapKey, StoredClient, Timestamp, TofuClientAuth,
    DEFAULT_SKEW_SECS,
};

const NOW: i64 = 1_750_000_000;

fn at(secs: i64) -> Timestamp {
    Timestamp { secs, nanos: 0 }
}

/// A scheme over collections in memory.
struct Scheme {
    auth: TofuClientAuth,
    clients: HashMap<String, StoredClient>,
    bootstrap_keys: HashMap<String, StoredBootstrapKey>,
    now: i64,
}

fn lookup<D: Clone>(collection: &HashMap<String, D>, id: &str) -> Lookup<D> {
    match collection.get(id) {
        Some(doc) => Lookup::Found(doc.clone()),
        None => Lookup::NotFound,
    }
}

impl Scheme {
    fn new() -> Scheme {
        let clients = TofuClientAuth::new().unwrap();
        assert_eq!(clients.collection().name, "clients");
        assert_eq!(clients.collection().indexed_fields, vec!["fingerprint".to_string()]);
        let keys = clients.ensured(Ok(())).unwrap();
        assert_eq!(keys.collection().name, "bootstrap_keys");
        assert_eq!(keys.collection().indexed_fields, vec!["key_hash".to_string()]);
        Scheme {
            auth: keys.ensured(Ok(())).unwrap(),
            clients: HashMap::new(),
            bootstrap_keys: HashMap::new(),
            now: NOW,
        }
    }

    fn issue_bootstrap_key(&mut self) -> Result<String, ClientAuthError> {
        let key = self.auth.issue_bootstrap_key(at(self.now));
        let put = key.record();
        assert_eq!(put.collection, BOOTSTRAP_KEYS);
        self.bootstrap_keys.insert(put.id.clone(), put.doc.clone());
        key.recorded(Ok(()))
    }

    fn enroll(&mut self, req: EnrollmentRequest) -> Result<ClientCredential, ClientAuthError> {
        let pending = self.auth.enroll(req)?;
        let get = pending.lookup();
        assert_eq!(get.collection, CLIENTS);
        let new = match pending.check_pin(lookup(&self.clients, &get.id))? {
            PinDecision::Known(credential) => return Ok(credential),
            PinDecision::FirstContact(new) => new,
        };
        let get = new.lookup();
        assert_eq!(get.collection, BOOTSTRAP_KEYS);
        let redemption = new.consume_bootstrap_key(lookup(&self.bootstrap_keys, &get.id))?;
        let put = redemption.update();
        assert_eq!(put.collection, BOOTSTRAP_KEYS);
        self.bootstrap_keys.insert(put.id.clone(), put.doc.clone());
        let pinning = redemption.redeemed(Ok(()), at(self.now))?;
        let put = pinning.insert();
        assert_eq!(put.collection, CLIENTS);
        self.clients.insert(put.id.clone(), put.doc.clone());
        pinning.pinned(Ok(()))
    }

    fn verify(&mut self, p: &PresentedClientAuth) -> Result<ClientIdentity, ClientAuthError> {
        let get = self.auth.verify_lookup(p);
        assert_eq!(get.collection, CLIENTS);
        let client = lookup(&self.clients, &get.id);
        self.auth.verify(p, client, self.now)
    }
}

fn keypair() -> SigningKey {
    SigningKey::generate(&mut OsRng)
}

fn request(api_key: &str, client_name: &str, sk: &SigningKey) -> EnrollmentRequest {
    EnrollmentRequest {
        api_key: api_key.to_string(),
        client_name: client_name.to_string(),
        public_key: sk.verifying_key().to_bytes().to_vec(),
    }
}

fn enroll_with(scheme: &mut Scheme, api_key: &str, sk: &SigningKey) -> ClientCredential {
    scheme.enroll(request(api_key, "dashboard-spa", sk)).expect("enroll")
}

fn sha256_bytes(b: &[u8]) -> Vec<u8> {
    let mut h = Sha256::new();
    h.update(b);
    h.finalize().to_vec()
}

fn presented(sk: &SigningKey, client_id: &str, timestamp: i64, nonce: &str) -> PresentedClientAuth {
    let canonical = canonicalize(
        "POST",
        "/v1/tasks",
        &sha256_bytes(b"{}"),
        client_id,
        timestamp,
        nonce,
    );
    let sig = sk.sign(&canonical);
    PresentedClientAuth {
        client_id: client_id.to_string(),
        canonical_request: canonical,
        signature: sig.to_bytes().to_vec(),
        timestamp,
        nonce: nonce.to_string(),
    }
}

fn storage_text<T>(r: Result<T, ClientAuthError>) -> String {
    match r {
        Err(ClientAuthError::Storage(text)) => text,
        Err(other) => panic!("got {other:?}"),
        Ok(_) => panic!("got a success"),
    }
}

fn invalid_text<T>(r: Result<T, ClientAuthError>) -> String {
    match r {
        Err(ClientAuthError::Invalid(text)) => text,
        Err(other) => panic!("got {other:?}"),
        Ok(_) => panic!("got a success"),
    }
}

#[test]
fn bootstrap_key_is_single_use() {
    let mut s = Scheme::new();
    let key = s.issue_bootstrap_key().unwrap();
    let sk = keypair();

    // First enroll with the key succeeds.
    let cred = enroll_with(&mut s, &key, &sk);
    assert_eq!(cred.client_id.len(), 64); // sha-256 hex

    // Reusing the same key for a different client gives BadApiKey (consumed).
    let sk2 = keypair();
    let err = s.enroll(request(&key, "another", &sk2)).unwrap_err();
    assert!(matches!(err, ClientAuthError::BadApiKey), "got {err:?}");
}

#[test]
fn unknown_or_garbage_bootstrap_key_rejected() {
    let mut s = Scheme::new();
    let sk = keypair();
    let err = s.enroll(request("not-a-real-key", "c", &sk)).unwrap_err();
    assert!(matches!(err, ClientAuthError::BadApiKey), "got {err:?}");
}

#[test]
fn verify_succeeds_then_tamper_fails() {
    let mut s = Scheme::new();
    let key = s.issue_bootstrap_key().unwrap();
    let sk = keypair();
    let cred = enroll_with(&mut s, &key, &sk);

    let now = s.now;
    let p = presented(&sk, &cred.client_id, now, "nonce-a");
    let id = s.verify(&p).expect("verify ok");
    assert_eq!(id.client_id, cred.client_id);

    // Tamper the signature: BadSignature.
    let mut bad = presented(&sk, &cred.client_id, now, "nonce-b");
    bad.signature[0] ^= 0xff;
    assert!(matches!(s.verify(&bad), Err(ClientAuthError::BadSignature)));

    // Tamper the canonical bytes (signature no longer matches): BadSignature.
    let mut bad2 = presented(&sk, &cred.client_id, now, "nonce-c");
    let last = bad2.canonical_request.len() - 1;
    bad2.canonical_request[last] ^= 0xff;
    assert!(matches!(s.verify(&bad2), Err(ClientAuthError::BadSignature)));
}

#[test]
fn unknown_client_rejected() {
    let mut s = Scheme::new();
    let sk = keypair();
    let p = presented(&sk, "00ff", s.now, "n");
    assert!(matches!(s.verify(&p), Err(ClientAuthError::UnknownClient)));
}

#[test]
fn replayed_nonce_rejected() {
    let mut s = Scheme::new();
    let key = s.issue_bootstrap_key().unwrap();
    let sk = keypair();
    let cred = enroll_with(&mut s, &key, &sk);

    let now = s.now;
    let p = presented(&sk, &cred.client_id, now, "dup-nonce");
    assert!(s.verify(&p).is_ok());
    // Same (client_id, nonce) again: Replay.
    assert!(matches!(s.verify(&p), Err(ClientAuthError::Replay)));
}

#[test]
fn stale_timestamp_rejected() {
    let mut s = Scheme::new();
    let key = s.issue_bootstrap_key().unwrap();
    let sk = keypair();
    let cred = enroll_with(&mut s, &key, &sk);

    let stale = s.now - DEFAULT_SKEW_SECS - 60;
    let p = presented(&sk, &cred.client_id, stale, "old-nonce");
    assert!(matches!(s.verify(&p), Err(ClientAuthError::Replay)));

    // Future beyond skew is equally rejected.
    let future = s.now + DEFAULT_SKEW_SECS + 60;
    let pf = presented(&sk, &cred.client_id, future, "future-nonce");
    assert!(matches!(s.verify(&pf), Err(ClientAuthError::Replay)));
}

#[test]
fn reenroll_same_key_is_idempotent() {
    let mut s = Scheme::new();
    let key = s.issue_bootstrap_key().unwrap();
    let sk = keypair();
    let c1 = enroll_with(&mut s, &key, &sk);
    // Re-enroll same client_id + same public key: idempotent, no bootstrap key needed.
    s.now += 60;
    let c2 = s
        .enroll(request("ignored-because-idempotent", "dashboard-spa", &sk))
        .expect("idempotent re-enroll");
    assert_eq!(c1.client_id, c2.client_id);
    assert_eq!(c1.fingerprint, c2.fingerprint);
    assert_eq!(c1.enrolled_at, c2.enrolled_at);
}

#[test]
fn reenroll_different_key_pin_mismatch() {
    // Different keys have different ids, so a collision cannot be had through the
    // enrollment itself: the pin check is held against a forged stored record.
    let mut s = Scheme::new();

    let sk_real = keypair();
    let fingerprint = sha256_hex(&sk_real.verifying_key().to_bytes());
    let client_id = fingerprint.clone();

    // Pin a DIFFERENT public key under this client_id directly in the store.
    let sk_other = keypair();
    let forged = StoredClient {
        client_id: client_id.clone(),
        public_key: hex_encode(&sk_other.verifying_key().to_bytes()),
        fingerprint: fingerprint.clone(),
        client_name: "pinned".into(),
        enrolled_at: at(s.now),
    };
    s.clients.insert(client_id.clone(), forged);

    // Now enroll presenting sk_real, which derives the SAME client_id but a
    // different pinned key: PinMismatch.
    let key = s.issue_bootstrap_key().unwrap();
    let err = s.enroll(request(&key, "dashboard-spa", &sk_real)).unwrap_err();
    assert!(matches!(err, ClientAuthError::PinMismatch), "got {err:?}");
    // The bootstrap key was not used up.
    enroll_with(&mut s, &key, &keypair());
}

#[test]
fn stored_client_has_no_secret_material() {
    let mut s = Scheme::new();
    let key = s.issue_bootstrap_key().unwrap();
    let sk = keypair();
    let cred = enroll_with(&mut s, &key, &sk);

    // The pattern names every field of the record.
    let StoredClient { client_id, public_key, fingerprint, client_name, enrolled_at } =
        s.clients.get(&cred.client_id).unwrap().clone();
    let mut obj = serde_json::Map::new();
    obj.insert("client_id".into(), client_id.into());
    obj.insert("public_key".into(), public_key.into());
    obj.insert("fingerprint".into(), fingerprint.into());
    obj.insert("client_name".into(), client_name.into());
    obj.insert("enrolled_at".into(), enrolled_at.secs.into());
    let keys: Vec<&str> = obj.keys().map(|k| k.as_str()).collect();

    // Exactly the public fields, nothing else.
    let mut sorted = keys.clone();
    sorted.sort_unstable();
    assert_eq!(
        sorted,
        vec!["client_id", "client_name", "enrolled_at", "fingerprint", "public_key"]
    );

    // Defensively scan for any secret-ish field name or for the private key bytes.
    for k in &keys {
        let lk = k.to_lowercase();
        assert!(
            !lk.contains("secret")
                && !lk.contains("private")
                && !lk.contains("seed")
                && lk != "signing_key",
            "stored client must not contain secret-ish field: {k}"
        );
    }
    // The private scalar must not appear anywhere in the serialized document.
    let serialized = serde_json::to_string(&obj).unwrap();
    let secret_hex = hex_encode(sk.to_bytes().as_slice());
    assert!(
        !serialized.contains(&secret_hex),
        "serialized client leaked the private key"
    );
    // Nor does the bootstrap key, here or in its own record.
    assert!(!serialized.contains(&key));
    assert!(!format!("{:?}", s.bootstrap_keys).contains(&key));
}

#[test]
fn one_bootstrap_key_enrolls_one_of_many_clients() {
    let mut s = Scheme::new();
    let key = s.issue_bootstrap_key().unwrap();
    let mut successes = 0;
    for _ in 0..8 {
        match s.enroll(request(&key, "racer", &keypair())) {
            Ok(_) => successes += 1,
            Err(ClientAuthError::BadApiKey) => {}
            Err(other) => panic!("unexpected enroll error: {other:?}"),
        }
    }
    assert_eq!(successes, 1);
    assert_eq!(s.clients.len(), 1);
}

#[test]
fn skew_must_be_positive() {
    assert_eq!(invalid_text(TofuClientAuth::with_skew(0)), "skew_secs must be positive");
    assert_eq!(invalid_text(TofuClientAuth::with_skew(-5)), "skew_secs must be positive");
    assert!(TofuClientAuth::with_skew(1).is_ok());
}

#[test]
fn explicit_skew_bounds_the_window() {
    let sk = keypair();
    let client = StoredClient {
        client_id: "c".into(),
        public_key: hex_encode(&sk.verifying_key().to_bytes()),
        fingerprint: "c".into(),
        client_name: "c".into(),
        enrolled_at: at(NOW),
    };
    let keys = TofuClientAuth::with_skew(10).unwrap().ensured(Ok(())).unwrap();
    let mut auth = keys.ensured(Ok(())).unwrap();
    let mut verify = |p: &PresentedClientAuth| auth.verify(p, Lookup::Found(client.clone()), NOW);
    assert!(verify(&presented(&sk, "c", NOW - 10, "a")).is_ok());
    assert!(verify(&presented(&sk, "c", NOW + 10, "b")).is_ok());
    assert!(matches!(
        verify(&presented(&sk, "c", NOW - 11, "c")),
        Err(ClientAuthError::Replay)
    ));
    assert!(matches!(
        verify(&presented(&sk, "c", NOW + 11, "d")),
        Err(ClientAuthError::Replay)
    ));
}

#[test]
fn store_failures_are_passed_on() {
    let setup = TofuClientAuth::new().unwrap();
    assert_eq!(storage_text(setup.ensured(Err("disk full".into()))), "disk full");
    let setup = TofuClientAuth::new().unwrap().ensured(Ok(())).unwrap();
    assert_eq!(storage_text(setup.ensured(Err("disk full".into()))), "disk full");

    let mut s = Scheme::new();
    let issued = s.auth.issue_bootstrap_key(at(NOW));
    assert_eq!(storage_text(issued.recorded(Err("no write".into()))), "no write");

    let sk = keypair();
    let key = s.issue_bootstrap_key().unwrap();
    let pending = s.auth.enroll(request(&key, "c", &sk)).unwrap();
    assert_eq!(storage_text(pending.check_pin(Lookup::Failed("io".into()))), "io");

    let first_contact = |s: &Scheme| {
        let pending = s.auth.enroll(request(&key, "c", &sk)).unwrap();
        match pending.check_pin(Lookup::NotFound).unwrap() {
            PinDecision::FirstContact(new) => new,
            PinDecision::Known(_) => panic!("nobody is pinned"),
        }
    };
    let failed = first_contact(&s).consume_bootstrap_key(Lookup::Failed("io".into()));
    assert_eq!(storage_text(failed), "io");

    let good = lookup(&s.bootstrap_keys, &first_contact(&s).lookup().id);
    let redemption = first_contact(&s).consume_bootstrap_key(good).unwrap();
    assert_eq!(storage_text(redemption.redeemed(Err("io".into()), at(NOW))), "io");

    let good = lookup(&s.bootstrap_keys, &first_contact(&s).lookup().id);
    let redemption = first_contact(&s).consume_bootstrap_key(good).unwrap();
    let pinning = redemption.redeemed(Ok(()), at(NOW)).unwrap();
    assert_eq!(storage_text(pinning.pinned(Err("io".into()))), "io");

    let p = presented(&sk, "c", NOW, "n");
    assert_eq!(storage_text(s.auth.verify(&p, Lookup::Failed("io".into()), NOW)), "io");
}

#[test]
fn names_are_trimmed_and_bounded() {
    let mut s = Scheme::new();
    let message = "client_name must be 1..=256 non-blank chars";
    let sk = keypair();
    assert_eq!(invalid_text(s.enroll(request("k", "", &sk))), message);
    assert_eq!(invalid_text(s.enroll(request("k", " \t\n\u{3000}", &sk))), message);
    assert_eq!(invalid_text(s.enroll(request("k", &"x".repeat(257), &sk))), message);

    // 256 characters of more than one byte each, with white space around them.
    let name = "\u{e9}".repeat(256);
    let key = s.issue_bootstrap_key().unwrap();
    let cred = s.enroll(request(&key, &format!("\u{a0}{name}  "), &sk)).unwrap();
    assert_eq!(s.clients[&cred.client_id].client_name, name);
}

#[test]
fn white_space_is_what_unicode_says() {
    let s = Scheme::new();
    let key = keypair();
    for n in 0..=0x10ffff {
        if let Some(c) = char::from_u32(n) {
            let listed = matches!(
                n,
                0x9..=0xd
                    | 0x20
                    | 0x85
                    | 0xa0
                    | 0x1680
                    | 0x2000..=0x200a
                    | 0x2028
                    | 0x2029
                    | 0x202f
                    | 0x205f
                    | 0x3000
            );
            assert_eq!(c.is_whitespace(), listed, "U+{n:04X}");
            if listed {
                assert!(s.auth.enroll(request("k", &c.to_string(), &key)).is_err());
                let padded = format!("{c}a{c}b{c}");
                let trimmed = padded.trim();
                assert_eq!(trimmed, format!("a{c}b"));
            }
        }
    }
}

#[test]
fn bad_public_keys_do_not_waste_the_bootstrap_key() {
    let mut s = Scheme::new();
    let key = s.issue_bootstrap_key().unwrap();
    let mut req = request(&key, "c", &keypair());
    req.public_key.pop();
    assert_eq!(invalid_text(s.enroll(req)), "public_key must be 32 bytes");
    let mut req = request(&key, "c", &keypair());
    req.public_key.push(0);
    assert_eq!(invalid_text(s.enroll(req)), "public_key must be 32 bytes");
    // No point of the curve has this encoding.
    let mut req = request(&key, "c", &keypair());
    req.public_key = vec![0; 32];
    req.public_key[0] = 2;
    assert_eq!(invalid_text(s.enroll(req)), "public_key is not a valid ed25519 key");

    enroll_with(&mut s, &key, &keypair());
}

#[test]
fn name_is_checked_before_the_key() {
    let s = Scheme::new();
    let bad = EnrollmentRequest { api_key: "k".into(), client_name: " ".into(), public_key: vec![] };
    assert_eq!(
        invalid_text(s.auth.enroll(bad)),
        "client_name must be 1..=256 non-blank chars"
    );
}

#[test]
fn validation_takes_the_digests_it_is_given() {
    let req = request("k", "name", &keypair());
    let pending = Enrollment::validate(req, true, "id".into(), "hash".into()).unwrap();
    assert_eq!(pending.lookup().id, "id");
    match pending.check_pin(Lookup::NotFound).unwrap() {
        PinDecision::FirstContact(new) => assert_eq!(new.lookup().id, "hash"),
        PinDecision::Known(_) => panic!("nobody is pinned"),
    }
    let req = request("k", "name", &keypair());
    assert_eq!(
        invalid_text(Enrollment::validate(req, false, "id".into(), "hash".into())),
        "public_key is not a valid ed25519 key"
    );
}

#[test]
fn issued_key_is_stored_by_its_hash() {
    let s = Scheme::new();
    let key = s.auth.issue_from_entropy(&[0xab; 32], at(5));
    let plaintext = "ab".repeat(32);
    let put = key.record();
    assert_eq!(put.collection, "bootstrap_keys");
    assert_eq!(put.id, sha256_hex(plaintext.as_bytes()));
    assert_eq!(put.doc.key_hash, put.id);
    assert!(!put.doc.consumed);
    assert_eq!(put.doc.issued_at, at(5));
    assert_eq!(key.recorded(Ok(())).unwrap(), plaintext);
}

#[test]
fn issued_keys_differ() {
    let mut s = Scheme::new();
    let a = s.issue_bootstrap_key().unwrap();
    let b = s.issue_bootstrap_key().unwrap();
    assert_eq!(a.len(), 64);
    assert_ne!(a, b);
    assert_ne!(a, "00".repeat(32));
}

#[test]
fn redeemed_key_is_written_back_consumed() {
    let mut s = Scheme::new();
    let key = s.issue_bootstrap_key().unwrap();
    let id = sha256_hex(key.as_bytes());
    s.now += 60;
    let cred = enroll_with(&mut s, &key, &keypair());
    let stored = &s.bootstrap_keys[&id];
    assert!(stored.consumed);
    assert_eq!(stored.key_hash, id);
    assert_eq!(stored.issued_at, at(NOW));
    assert_eq!(cred.enrolled_at, at(NOW + 60));
}

#[test]
fn record_under_another_hash_is_refused() {
    let mut s = Scheme::new();
    let key = s.issue_bootstrap_key().unwrap();
    let id = sha256_hex(key.as_bytes());
    s.bootstrap_keys.get_mut(&id).unwrap().key_hash = sha256_hex(b"other");
    let err = s.enroll(request(&key, "c", &keypair())).unwrap_err();
    assert!(matches!(err, ClientAuthError::BadApiKey), "got {err:?}");
    // One that only starts with the hash is no better.
    s.bootstrap_keys.get_mut(&id).unwrap().key_hash = format!("{id}0");
    let err = s.enroll(request(&key, "c", &keypair())).unwrap_err();
    assert!(matches!(err, ClientAuthError::BadApiKey), "got {err:?}");
}

#[test]
fn client_id_is_the_fingerprint_of_the_key() {
    let mut s = Scheme::new();
    let key = s.issue_bootstrap_key().unwrap();
    let sk = keypair();
    let cred = enroll_with(&mut s, &key, &sk);
    let fingerprint = sha256_hex(&sk.verifying_key().to_bytes());
    assert_eq!(cred.client_id, fingerprint);
    assert_eq!(cred.fingerprint, fingerprint);
    let stored = &s.clients[&fingerprint];
    assert_eq!(stored.client_id, fingerprint);
    assert_eq!(stored.public_key, hex_encode(&sk.verifying_key().to_bytes()));
}

#[test]
fn corrupt_pins_are_reported() {
    let mut s = Scheme::new();
    let key = s.issue_bootstrap_key().unwrap();
    let sk = keypair();
    let cred = enroll_with(&mut s, &key, &sk);
    let p = presented(&sk, &cred.client_id, s.now, "n");
    let no_point = format!("02{}", "00".repeat(31));
    for text in ["zz", "abc", "00", no_point.as_str()] {
        s.clients.get_mut(&cred.client_id).unwrap().public_key = text.to_string();
        assert_eq!(storage_text(s.verify(&p)), "stored public key is corrupt");
    }
    // The pin is read in either case.
    let upper = hex_encode(&sk.verifying_key().to_bytes()).to_uppercase();
    s.clients.get_mut(&cred.client_id).unwrap().public_key = upper;
    assert!(s.verify(&p).is_ok());
}

#[test]
fn signatures_of_the_wrong_length_or_key_are_bad() {
    let mut s = Scheme::new();
    let key = s.issue_bootstrap_key().unwrap();
    let sk = keypair();
    let cred = enroll_with(&mut s, &key, &sk);
    let now = s.now;
    let mut short = presented(&sk, &cred.client_id, now, "n");
    short.signature.pop();
    assert!(matches!(s.verify(&short), Err(ClientAuthError::BadSignature)));
    let mut long = presented(&sk, &cred.client_id, now, "n");
    long.signature.push(0);
    assert!(matches!(s.verify(&long), Err(ClientAuthError::BadSignature)));
    let other = presented(&keypair(), &cred.client_id, now, "n");
    assert!(matches!(s.verify(&other), Err(ClientAuthError::BadSignature)));
    // None of these has spent the nonce.
    assert!(s.verify(&presented(&sk, &cred.client_id, now, "n")).is_ok());
}

#[test]
fn checks_come_in_order() {
    let client = || {
        Lookup::Found(StoredClient {
            client_id: "c".into(),
            public_key: "".into(),
            fingerprint: "c".into(),
            client_name: "c".into(),
            enrolled_at: at(NOW),
        })
    };
    let mut s = Scheme::new();
    let stale = presented(&keypair(), "c", NOW - 1_000, "n");
    let fresh = presented(&keypair(), "c", NOW, "n");
    assert_eq!(
        storage_text(s.auth.verify_checked(&stale, client(), false, false, NOW)),
        "stored public key is corrupt"
    );
    assert!(matches!(
        s.auth.verify_checked(&stale, client(), true, false, NOW),
        Err(ClientAuthError::BadSignature)
    ));
    assert!(matches!(
        s.auth.verify_checked(&stale, client(), true, true, NOW),
        Err(ClientAuthError::Replay)
    ));
    assert_eq!(
        s.auth.verify_checked(&fresh, client(), true, true, NOW).unwrap().client_id,
        "c"
    );
    assert!(matches!(
        s.auth.verify_checked(&fresh, client(), true, true, NOW),
        Err(ClientAuthError::Replay)
    ));
    assert!(matches!(
        s.auth.verify_checked(&fresh, Lookup::NotFound, true, true, NOW),
        Err(ClientAuthError::UnknownClient)
    ));
}

#[test]
fn out_of_range_timestamps_are_refused() {
    let mut s = Scheme::new();
    let key = s.issue_bootstrap_key().unwrap();
    let sk = keypair();
    let cred = enroll_with(&mut s, &key, &sk);
    for timestamp in [i64::MIN, i64::MAX] {
        let p = presented(&sk, &cred.client_id, timestamp, "n");
        assert!(matches!(s.verify(&p), Err(ClientAuthError::Replay)));
    }
}

#[test]
fn accepted_request_is_never_accepted_again() {
    let mut s = Scheme::new();
    let key = s.issue_bootstrap_key().unwrap();
    let sk = keypair();
    let cred = enroll_with(&mut s, &key, &sk);
    let p = presented(&sk, &cred.client_id, NOW, "n");
    assert!(s.verify(&p).is_ok());
    for step in [1, DEFAULT_SKEW_SECS - 1, DEFAULT_SKEW_SECS, DEFAULT_SKEW_SECS + 1, 5_000] {
        s.now = NOW + step;
        let other = presented(&sk, &cred.client_id, s.now, &format!("n{step}"));
        assert!(s.verify(&other).is_ok());
        assert!(matches!(s.verify(&p), Err(ClientAuthError::Replay)));
    }
}

#[test]
fn pins_do_not_change() {
    let mut s = Scheme::new();
    let key = s.issue_bootstrap_key().unwrap();
    let sk = keypair();
    let cred = enroll_with(&mut s, &key, &sk);
    let before = format!("{:?}", s.clients[&cred.client_id]);
    let keys_before = s.bootstrap_keys.len();
    s.now += 1_000;
    // Others enroll, and the client comes back under another name with a fresh key.
    let other = s.issue_bootstrap_key().unwrap();
    enroll_with(&mut s, &other, &keypair());
    let fresh = s.issue_bootstrap_key().unwrap();
    let again = s.enroll(request(&fresh, "renamed", &sk)).unwrap();
    assert_eq!(again.enrolled_at, cred.enrolled_at);
    assert_eq!(format!("{:?}", s.clients[&cred.client_id]), before);
    assert_eq!(s.bootstrap_keys.len(), keys_before + 2);
    // The fresh key was not used up, the first one still is.
    assert!(!s.bootstrap_keys[&sha256_hex(fresh.as_bytes())].consumed);
    assert!(s.bootstrap_keys[&sha256_hex(key.as_bytes())].consumed);
}

#[test]
fn precheck_refuses_what_does_not_reach_the_cache() {
    let mut s = Scheme::new();
    let key = s.issue_bootstrap_key().unwrap();
    let sk = keypair();
    let cred = enroll_with(&mut s, &key, &sk);
    let client = || lookup(&s.clients, &cred.client_id);
    let good = presented(&sk, &cred.client_id, NOW, "n");
    let forged = presented(&keypair(), &cred.client_id, NOW, "n");
    assert_eq!(TofuClientAuth::check_signature(&good, &client()), (true, true));
    assert_eq!(TofuClientAuth::check_signature(&forged, &client()), (true, false));
    assert_eq!(TofuClientAuth::check_signature(&good, &Lookup::NotFound), (false, false));
    assert!(s.auth.precheck(&good, &client(), true, true, NOW).is_none());
    assert!(matches!(
        s.auth.precheck(&good, &client(), true, false, NOW),
        Some(ClientAuthError::BadSignature)
    ));
    assert!(matches!(
        s.auth.precheck(&good, &client(), true, true, NOW + 1_000),
        Some(ClientAuthError::Replay)
    ));
    assert!(matches!(
        s.auth.precheck(&good, &Lookup::NotFound, true, true, NOW),
        Some(ClientAuthError::UnknownClient)
    ));
}

#[test]
fn refused_requests_do_not_use_up_a_nonce() {
    let mut s = Scheme::new();
    let key = s.issue_bootstrap_key().unwrap();
    let sk = keypair();
    let cred = enroll_with(&mut s, &key, &sk);
    let mut tampered = presented(&sk, &cred.client_id, NOW, "n");
    tampered.signature[3] ^= 1;
    assert!(matches!(s.verify(&tampered), Err(ClientAuthError::BadSignature)));
    let stale = presented(&sk, &cred.client_id, NOW - DEFAULT_SKEW_SECS - 1, "n");
    assert!(matches!(s.verify(&stale), Err(ClientAuthError::Replay)));
    // The nonce is still good, once, and again when its window has closed.
    assert!(s.verify(&presented(&sk, &cred.client_id, NOW, "n")).is_ok());
    s.now = NOW + DEFAULT_SKEW_SECS;
    let again = presented(&sk, &cred.client_id, s.now, "n");
    assert!(matches!(s.verify(&again), Err(ClientAuthError::Replay)));
    s.now += 1;
    assert!(s.verify(&again).is_ok());
}

#[test]
fn cut_off_enrollment_uses_up_its_key() {
    let mut s = Scheme::new();
    let key = s.issue_bootstrap_key().unwrap();
    let sk = keypair();
    let pending = s.auth.enroll(request(&key, "c", &sk)).unwrap();
    let new = match pending.check_pin(Lookup::NotFound).unwrap() {
        PinDecision::FirstContact(new) => new,
        PinDecision::Known(_) => panic!("nobody is pinned"),
    };
    let found = lookup(&s.bootstrap_keys, &new.lookup().id);
    let redemption = new.consume_bootstrap_key(found).unwrap();
    let put = redemption.update();
    s.bootstrap_keys.insert(put.id.clone(), put.doc.clone());
    let pinning = redemption.redeemed(Ok(()), at(NOW)).unwrap();
    assert_eq!(storage_text(pinning.pinned(Err("disk full".into()))), "disk full");
    // The client was not stored, and the key is spent.
    assert!(s.clients.is_empty());
    let err = s.enroll(request(&key, "c", &sk)).unwrap_err();
    assert!(matches!(err, ClientAuthError::BadApiKey), "got {err:?}");
}
