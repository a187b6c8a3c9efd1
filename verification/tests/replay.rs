use wyrtloom_clientauth_tofu::replay::{is_fresh, is_replayable, Admission, ReplayCache};
use wyrtloom_clientauth_tofu::PresentedClientAuth;

const SKEW: i64 = 300;
const NOW: i64 = 1_700_000_000;

fn nonce(client_id: &str, nonce: &str, timestamp: i64) -> PresentedClientAuth {
    PresentedClientAuth {
        client_id: client_id.to_string(),
        canonical_request: vec![],
        signature: vec![],
        timestamp,
        nonce: nonce.to_string(),
    }
}

#[test]
fn window_is_closed_at_both_ends() {
    assert!(is_fresh(NOW, NOW, SKEW));
    assert!(is_fresh(NOW - SKEW, NOW, SKEW));
    assert!(is_fresh(NOW + SKEW, NOW, SKEW));
    assert!(!is_fresh(NOW - SKEW - 1, NOW, SKEW));
    assert!(!is_fresh(NOW + SKEW + 1, NOW, SKEW));
}

#[test]
fn extreme_timestamps_are_compared() {
    assert!(!is_fresh(i64::MIN, NOW, SKEW));
    assert!(!is_fresh(i64::MAX, NOW, SKEW));
    assert!(!is_fresh(i64::MAX, i64::MIN, i64::MAX));
    assert!(!is_fresh(i64::MIN, i64::MAX, i64::MAX));
    assert!(!is_replayable(i64::MIN, i64::MAX, i64::MAX));
    assert!(is_replayable(i64::MAX, i64::MIN, SKEW));
}

#[test]
fn retention_is_trailing_edge_only() {
    assert!(is_replayable(NOW - SKEW, NOW, SKEW));
    assert!(!is_replayable(NOW - SKEW - 1, NOW, SKEW));
    assert!(is_replayable(NOW + 10 * SKEW, NOW, SKEW));
}

#[test]
fn nonces_are_told_apart_by_client() {
    let mut cache = ReplayCache::new();
    assert_eq!(cache.check_and_record(&nonce("a", "n", NOW), NOW, SKEW), Admission::Recorded);
    assert_eq!(cache.check_and_record(&nonce("b", "n", NOW), NOW, SKEW), Admission::Recorded);
    assert_eq!(cache.check_and_record(&nonce("a", "m", NOW), NOW, SKEW), Admission::Recorded);
    assert_eq!(cache.check_and_record(&nonce("a", "n", NOW), NOW, SKEW), Admission::Seen);
}

#[test]
fn nonce_is_kept_while_a_replay_is_fresh() {
    let mut cache = ReplayCache::new();
    let p = nonce("a", "n", NOW);
    assert_eq!(cache.check_and_record(&p, NOW, SKEW), Admission::Recorded);
    assert_eq!(cache.check_and_record(&p, NOW + SKEW, SKEW), Admission::Seen);
    // One second later the window has closed, and the nonce is forgotten.
    assert_eq!(cache.check_and_record(&p, NOW + SKEW + 1, SKEW), Admission::Recorded);
}

#[test]
fn future_dated_nonce_survives_a_backward_clock_step() {
    let mut cache = ReplayCache::new();
    let p = nonce("a", "n", NOW + SKEW);
    assert_eq!(cache.check_and_record(&p, NOW, SKEW), Admission::Recorded);
    assert_eq!(
        cache.check_and_record(&nonce("a", "other", NOW - 100), NOW - 100, SKEW),
        Admission::Recorded
    );
    assert_eq!(cache.check_and_record(&p, NOW, SKEW), Admission::Seen);
}

#[test]
fn eviction_reaches_behind_younger_entries() {
    let mut cache = ReplayCache::new();
    let young = nonce("a", "young", NOW + SKEW);
    let old = nonce("a", "old", NOW - SKEW);
    assert_eq!(cache.check_and_record(&young, NOW, SKEW), Admission::Recorded);
    assert_eq!(cache.check_and_record(&old, NOW, SKEW), Admission::Recorded);
    assert_eq!(cache.check_and_record(&young, NOW + 1, SKEW), Admission::Seen);
    assert_eq!(cache.check_and_record(&old, NOW + 1, SKEW), Admission::Recorded);
}
