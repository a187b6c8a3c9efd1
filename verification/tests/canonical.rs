use wyrtloom_clientauth_tofu::canonical::{push_field, timestamp_ascii};
use wyrtloom_clientauth_tofu::{canonicalize, DOMAIN_TAG};

/// A field behind its length in four bytes.
fn prefixed(field: &[u8]) -> Vec<u8> {
    let mut out = (field.len() as u32).to_be_bytes().to_vec();
    out.extend_from_slice(field);
    out
}

#[test]
fn canonicalize_is_unambiguous() {
    // Moving a byte across a field boundary must change the output (length
    // prefixes prevent ("ab","c") colliding with ("a","bc")).
    let a = canonicalize("ab", "c", b"", "id", 1, "n");
    let b = canonicalize("a", "bc", b"", "id", 1, "n");
    assert_ne!(a, b);
    // Identical inputs give identical bytes (deterministic).
    assert_eq!(
        canonicalize("GET", "/x", b"\x01", "id", 7, "nn"),
        canonicalize("GET", "/x", b"\x01", "id", 7, "nn")
    );
}

#[test]
fn canonical_bytes_are_laid_out_field_by_field() {
    let mut expected = b"wyrtloom-client-auth-v1".to_vec();
    expected.extend(prefixed(b"POST"));
    expected.extend(prefixed(b"/v1/tasks"));
    expected.extend(prefixed(&[0xaa; 32]));
    expected.extend(prefixed(b"client"));
    expected.extend(prefixed(b"-1700000000"));
    expected.extend(prefixed("n\u{e9}".as_bytes()));
    assert_eq!(
        canonicalize("POST", "/v1/tasks", &[0xaa; 32], "client", -1_700_000_000, "n\u{e9}"),
        expected
    );
    assert_eq!(DOMAIN_TAG, "wyrtloom-client-auth-v1");
    // The tag stands bare; the first length is that of the method.
    assert!(expected.starts_with(DOMAIN_TAG.as_bytes()));
    assert_eq!(&expected[23..28], &[0, 0, 0, 4, b'P']);
    assert_eq!(expected.len(), 23 + 6 * 4 + 4 + 9 + 32 + 6 + 11 + 3);
}

#[test]
fn every_field_counts() {
    let base = canonicalize("GET", "/", b"\x01", "id", 7, "n");
    assert_ne!(base, canonicalize("PUT", "/", b"\x01", "id", 7, "n"));
    assert_ne!(base, canonicalize("GET", "/a", b"\x01", "id", 7, "n"));
    assert_ne!(base, canonicalize("GET", "/", b"\x02", "id", 7, "n"));
    assert_ne!(base, canonicalize("GET", "/", b"\x01", "ie", 7, "n"));
    assert_ne!(base, canonicalize("GET", "/", b"\x01", "id", 8, "n"));
    assert_ne!(base, canonicalize("GET", "/", b"\x01", "id", 7, "m"));
}

#[test]
fn length_prefix_is_big_endian() {
    let mut buf = vec![9];
    push_field(&mut buf, &vec![7; 0x01_02_03]);
    assert_eq!(&buf[..5], &[9, 0, 1, 2, 3]);
    assert_eq!(buf.len(), 5 + 0x01_02_03);
    let mut empty = Vec::new();
    push_field(&mut empty, b"");
    assert_eq!(empty, vec![0, 0, 0, 0]);
}

#[test]
fn timestamps_are_decimal() {
    for n in [0, 1, 9, 10, 99, 100, -1, -10, 1_700_000_000, i64::MAX, i64::MIN] {
        assert_eq!(timestamp_ascii(n), n.to_string().into_bytes());
    }
}
