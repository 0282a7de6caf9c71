//! HKDF-SHA256 key derivation (32-byte keys), through the `hkdf` and `sha2` crates.
use vstd::prelude::*;
use vstd::string::*;
use vstd::utf8::*;

verus! {

/// Context of the key that protects the pairing code.
pub const PAIRING_CODE_INFO: &'static str = "pairing-code-encryption";
/// Context of the session key derived from ECDH.
pub const SESSION_KEY_INFO: &'static str = "NotifyRelay-ECDH-v1";

/// Name for the 32-byte output of HKDF-SHA256 with `salt`, input key material `ikm` and
/// context `info`.
pub uninterp spec fn hkdf_sha256_32(salt: Seq<u8>, ikm: Seq<u8>, info: Seq<u8>) -> Seq<u8>;

/// Wraps `Hkdf::<Sha256>::new(Some(salt), ikm)` and `Hkdf::expand(info, &mut [0u8; 32])`;
/// named by `hkdf_sha256_32`. Expanding to 32 bytes never fails (the crate refuses only more
/// than 255 hash lengths).
#[verifier::external_body]
fn hkdf_expand(salt: &[u8], ikm: &[u8], info: &[u8]) -> (r: [u8; 32])
    ensures
        r@ == hkdf_sha256_32(salt@, ikm@, info@),
{
    let hk = hkdf::Hkdf::<sha2::Sha256>::new(Some(salt), ikm);
    let mut okm = [0u8; 32];
    let _ = hk.expand(info, &mut okm);
    okm
}

/// The all-zero salt used when none is given.
pub open spec fn zero_salt() -> Seq<u8> {
    Seq::new(32, |i: int| 0u8)
}

/// HKDF-SHA256 of `ikm` with context `info` and `salt` (32 zero bytes when none).
fn derive_key(ikm: &[u8], info: &[u8], salt: Option<&[u8]>) -> (r: [u8; 32])
    ensures
        r@ == hkdf_sha256_32(match salt {
            Some(s) => s@,
            None => zero_salt(),
        }, ikm@, info@),
{
    let default_salt = [0u8; 32];
    assert(default_salt@ =~= zero_salt());
    let s: &[u8] = match salt {
        Some(s) => s,
        None => &default_salt,
    };
    hkdf_expand(s, ikm, info)
}

/// The key that protects the pairing code, from an ECDH shared secret.
pub fn derive_pairing_key(shared_secret: &[u8]) -> (r: [u8; 32])
    ensures
        r@ == hkdf_sha256_32(zero_salt(), shared_secret@, encode_utf8(PAIRING_CODE_INFO@)),
{
    derive_key(shared_secret, PAIRING_CODE_INFO.as_bytes(), None)
}

/// The session key, from a shared secret (ECDH or SPAKE2).
pub fn derive_session_key(shared_secret: &[u8]) -> (r: [u8; 32])
    ensures
        r@ == hkdf_sha256_32(zero_salt(), shared_secret@, encode_utf8(SESSION_KEY_INFO@)),
{
    derive_key(shared_secret, SESSION_KEY_INFO.as_bytes(), None)
}

/// Law: both sides derive the same key from the same shared secret.
pub proof fn law_same_secret_same_key(a: Seq<u8>, b: Seq<u8>)
    requires
        a == b,
    ensures
        hkdf_sha256_32(zero_salt(), a, encode_utf8(SESSION_KEY_INFO@)) == hkdf_sha256_32(zero_salt(), b, encode_utf8(SESSION_KEY_INFO@)),
{
}

} // verus!
