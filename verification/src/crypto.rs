//! Digests, constant-time comparison, ed25519 and randomness, as the rest of the library
//! sees them.

use ed25519_dalek::Verifier;
use rand::RngCore;
use sha2::Digest;
use subtle::ConstantTimeEq;
use vstd::prelude::*;
use vstd::utf8::encode_utf8;

verus! {

/// The SHA-256 digest of some bytes.
pub uninterp spec fn sha256(data: Seq<u8>) -> Seq<u8>;

/// Whether 32 bytes are the encoding of an ed25519 public key.
pub uninterp spec fn ed25519_key_valid(key: Seq<u8>) -> bool;

/// Whether a signature over a message verifies under an ed25519 public key.
pub uninterp spec fn ed25519_verifies(
    key: Seq<u8>,
    message: Seq<u8>,
    signature: Seq<u8>,
) -> bool;

/// The text under which a digest is stored and compared: its hexadecimal digits.
pub open spec fn sha256_text(data: Seq<u8>) -> Seq<char> {
    crate::hex::hex_text(sha256(data))
}

/// `sha2::Sha256::digest`: the 32-byte SHA-256 digest of `data`, a function of the bytes
/// alone.
#[verifier::external_body]
fn sha256_digest(data: &[u8]) -> (digest: Vec<u8>)
    ensures
        digest@ == sha256(data@),
        digest@.len() == 32,
{
    sha2::Sha256::digest(data).to_vec()
}

/// `subtle::ConstantTimeEq::ct_eq` on byte slices: whether the two have the same length
/// and the same bytes.
#[verifier::external_body]
pub(crate) fn constant_time_eq(a: &[u8], b: &[u8]) -> (same: bool)
    ensures
        same == (a@ == b@),
{
    a.ct_eq(b).into()
}

/// `ed25519_dalek::VerifyingKey::from_bytes`: whether the 32 bytes decode to a public key,
/// a function of the bytes alone.
#[verifier::external_body]
pub(crate) fn check_ed25519_key(key: &[u8]) -> (valid: bool)
    requires
        key@.len() == 32,
    ensures
        valid == ed25519_key_valid(key@),
{
    let mut bytes = [0u8; 32];
    bytes.copy_from_slice(key);
    ed25519_dalek::VerifyingKey::from_bytes(&bytes).is_ok()
}

/// `verify` of `ed25519_dalek::VerifyingKey`, on a key and a signature that its
/// `from_bytes` functions read: whether the signature over `message` is valid under the
/// key, a function of the three byte sequences alone. A key that does not decode verifies
/// nothing.
#[verifier::external_body]
pub(crate) fn check_ed25519_signature(key: &[u8], message: &[u8], signature: &[u8]) -> (valid: bool)
    requires
        key@.len() == 32,
        signature@.len() == 64,
    ensures
        valid == ed25519_verifies(key@, message@, signature@),
{
    let mut key_bytes = [0u8; 32];
    key_bytes.copy_from_slice(key);
    let mut signature_bytes = [0u8; 64];
    signature_bytes.copy_from_slice(signature);
    let signature = ed25519_dalek::Signature::from_bytes(&signature_bytes);
    ed25519_dalek::VerifyingKey::from_bytes(&key_bytes)
        .and_then(|key| key.verify(message, &signature))
        .is_ok()
}

/// `fill_bytes` of `rand::rngs::OsRng`: 32 bytes from the operating system's secure random
/// number generator. Nothing is stated of the bytes. The call panics where the operating
/// system cannot supply them.
#[verifier::external_body]
pub(crate) fn random_bytes() -> (bytes: [u8; 32]) {
    let mut bytes = [0u8; 32];
    rand::rngs::OsRng.fill_bytes(&mut bytes);
    bytes
}

/// The SHA-256 digest of `bytes` in lower-case hexadecimal: 64 digits.
pub fn sha256_hex(bytes: &[u8]) -> (s: String)
    ensures
        s@ == sha256_text(bytes@),
        s@.len() == 64,
{
    let digest: Vec<u8> = sha256_digest(bytes);
    crate::hex::hex_encode(digest.as_slice())
}

/// The stored text of a digest reads back as the digest.
pub proof fn sha256_text_is_the_digest(data: Seq<u8>)
    ensures
        crate::hex::hex_bytes(encode_utf8(sha256_text(data))) == Some(sha256(data)),
        sha256_text(data) == crate::hex::hex_text(sha256(data)),
{
    crate::hex::hex_round_trip(sha256(data));
}

} // verus!
