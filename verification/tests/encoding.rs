use wyrtloom_clientauth_tofu::crypto::sha256_hex;
use wyrtloom_clientauth_tofu::hex::{hex_decode, hex_encode};

#[test]
fn hex_is_lower_case_and_two_digits_a_byte() {
    assert_eq!(hex_encode(&[]), "");
    assert_eq!(hex_encode(&[0x00, 0x0f, 0xa0, 0xff]), "000fa0ff");
    assert_eq!(hex_encode(&[0xbe, 0xef]), "beef");
}

#[test]
fn hex_reads_either_case() {
    assert_eq!(hex_decode("000FA0ff"), Ok(vec![0x00, 0x0f, 0xa0, 0xff]));
    assert_eq!(hex_decode(""), Ok(vec![]));
}

#[test]
fn hex_refuses_what_is_not_hex() {
    assert_eq!(hex_decode("abc"), Err(()));
    assert_eq!(hex_decode("0g"), Err(()));
    assert_eq!(hex_decode("g0"), Err(()));
    assert_eq!(hex_decode("/0"), Err(()));
    assert_eq!(hex_decode(":0"), Err(()));
    assert_eq!(hex_decode("@0"), Err(()));
    assert_eq!(hex_decode("`0"), Err(()));
    // Two bytes of one character.
    assert_eq!(hex_decode("\u{e9}"), Err(()));
}

#[test]
fn hex_round_trips() {
    let all: Vec<u8> = (0..=255).collect();
    assert_eq!(hex_decode(&hex_encode(&all)), Ok(all.clone()));
    assert_eq!(hex_decode(&hex_encode(&all).to_uppercase()), Ok(all));
}

#[test]
fn sha256_of_known_texts() {
    assert_eq!(
        sha256_hex(b"abc"),
        "ba7816bf8f01cfea414140de5dae2223b00361a396177a9cb410ff61f20015ad"
    );
    assert_eq!(
        sha256_hex(b""),
        "e3b0c44298fc1c149afbf4c8996fb92427ae41e4649b934ca495991b7852b855"
    );
}
