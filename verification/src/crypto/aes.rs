//! AES-256-GCM with a random 96-bit nonce, through the `aes-gcm` crate; the wire form is
//! base64 of `nonce || ciphertext || tag`.
use vstd::prelude::*;
use vstd::string::*;
use aes_gcm::aead::{Aead, KeyInit, Payload};
use rand::Rng;
use crate::crypto::b64::{b64_decode, b64_encode_bytes, base64_decoded, base64_of};

verus! {

/// Largest plaintext and associated data (bytes) the cipher accepts.
pub const GCM_MAX_LEN: u64 = 68719476736;

/// Name for AES-256-GCM sealing: `ciphertext || tag` of `plaintext` under `key`, `nonce`
/// and associated data `aad`.
pub uninterp spec fn gcm_seal(key: Seq<u8>, nonce: Seq<u8>, plaintext: Seq<u8>, aad: Seq<u8>) -> Seq<u8>;

/// Name for AES-256-GCM opening: the plaintext when the tag checks, else `None`.
pub uninterp spec fn gcm_open(key: Seq<u8>, nonce: Seq<u8>, sealed: Seq<u8>, aad: Seq<u8>) -> Option<Seq<u8>>;

/// Twelve random bytes from `rand::thread_rng().gen()`; nothing is promised of them.
#[verifier::external_body]
fn random_nonce() -> (r: [u8; 12]) {
    rand::thread_rng().gen()
}

/// Wraps `Aes256Gcm::new_from_slice` and `Aead::encrypt`. The result is named by
/// `gcm_seal`, and opening it under the same key, nonce and associated data gives the
/// plaintext back; it is the ciphertext (as long as the plaintext) followed by the 16-byte
/// tag. The crate fails only when the plaintext or the associated data is longer than `2^36`
/// bytes.
#[verifier::external_body]
fn gcm_encrypt(key: &[u8; 32], nonce: &[u8; 12], plaintext: &[u8], aad: &[u8]) -> (r: Result<Vec<u8>, String>)
    ensures
        r matches Ok(c) ==> c@ == gcm_seal(key@, nonce@, plaintext@, aad@),
        r matches Ok(c) ==> gcm_open(key@, nonce@, c@, aad@) == Some(plaintext@),
        r matches Ok(c) ==> c@.len() == plaintext@.len() + 16,
        plaintext@.len() <= GCM_MAX_LEN && aad@.len() <= GCM_MAX_LEN ==> r is Ok,
{
    let cipher = aes_gcm::Aes256Gcm::new_from_slice(key).map_err(|e| format!("{:?}", e))?;
    let n = aes_gcm::Nonce::from(*nonce);
    cipher.encrypt(&n, Payload { msg: plaintext, aad }).map_err(|e| format!("encrypt failed: {:?}", e))
}

/// Wraps `Aes256Gcm::new_from_slice` and `Aead::decrypt`. The result is named by
/// `gcm_open`; what was sealed under the same key, nonce and associated data opens to the
/// plaintext it sealed, and fewer bytes than a tag (16) are refused.
#[verifier::external_body]
fn gcm_decrypt(key: &[u8; 32], nonce: &[u8], sealed: &[u8], aad: &[u8]) -> (r: Result<Vec<u8>, String>)
    requires
        nonce@.len() == 12,
    ensures
        sealed@.len() < 16 ==> r is Err,
        match r {
            Ok(p) => gcm_open(key@, nonce@, sealed@, aad@) == Some(p@),
            Err(_) => gcm_open(key@, nonce@, sealed@, aad@) is None,
        },
        forall|p: Seq<u8>| p.len() <= GCM_MAX_LEN && aad@.len() <= GCM_MAX_LEN && #[trigger] gcm_seal(key@, nonce@, p, aad@) == sealed@
            ==> r is Ok && r->Ok_0@ == p,
{
    let cipher = aes_gcm::Aes256Gcm::new_from_slice(key).map_err(|e| format!("{:?}", e))?;
    let n = aes_gcm::Nonce::from_slice(nonce);
    cipher.decrypt(n, Payload { msg: sealed, aad }).map_err(|e| format!("decrypt failed: {:?}", e))
}

/// `encrypt_with_aad` succeeded with `out` when `out` is base64 of some 12-byte nonce
/// followed by the sealing of `plaintext` under it (text that decodes back to those bytes,
/// whose sealed part opens to `plaintext`).
pub open spec fn is_encryption_of(out: Seq<char>, key: Seq<u8>, plaintext: Seq<u8>, aad: Seq<u8>) -> bool {
    exists|n: Seq<u8>| {
        &&& n.len() == 12
        &&& #[trigger] base64_of(n + gcm_seal(key, n, plaintext, aad)) == out
        &&& base64_decoded(out) == Some(n + gcm_seal(key, n, plaintext, aad))
        &&& gcm_open(key, n, gcm_seal(key, n, plaintext, aad), aad) == Some(plaintext)
        &&& gcm_seal(key, n, plaintext, aad).len() == plaintext.len() + 16
        &&& out.len() == 4 * ((28 + plaintext.len() + 2) / 3)
    }
}

/// Length (bytes) of what the text of an encryption decodes to: nonce, ciphertext and tag.
pub open spec fn sealed_text_len(plaintext_len: nat) -> nat {
    12 + plaintext_len + 16
}

/// What decrypting base64 text `enc` gives: `None` when it is not base64, too short (under
/// 12 bytes) or does not authenticate.
pub open spec fn decryption_of(enc: Seq<char>, key: Seq<u8>, aad: Seq<u8>) -> Option<Seq<u8>> {
    match base64_decoded(enc) {
        Some(d) => if d.len() < 12 {
            None
        } else {
            gcm_open(key, d.take(12), d.skip(12), aad)
        },
        None => None,
    }
}

/// Encrypts `plaintext` without associated data (local state only).
pub fn encrypt(key: &[u8; 32], plaintext: &[u8]) -> (r: Result<String, String>)
    ensures
        r matches Ok(s) ==> is_encryption_of(s@, key@, plaintext@, Seq::<u8>::empty()),
        r matches Ok(s) ==> base64_decoded(s@) matches Some(d) && d.len() == sealed_text_len(plaintext@.len()),
        plaintext@.len() <= GCM_MAX_LEN ==> r is Ok,
{
    let empty: [u8; 0] = [];
    assert(empty@ =~= Seq::<u8>::empty());
    encrypt_with_aad(key, plaintext, &empty)
}

/// Encrypts `plaintext` with associated data `aad` under a fresh random nonce: base64 of
/// `nonce || ciphertext || tag`. The associated data is authenticated, not sent.
pub fn encrypt_with_aad(key: &[u8; 32], plaintext: &[u8], aad: &[u8]) -> (r: Result<String, String>)
    ensures
        r matches Ok(s) ==> is_encryption_of(s@, key@, plaintext@, aad@),
        r matches Ok(s) ==> base64_decoded(s@) matches Some(d) && d.len() == sealed_text_len(plaintext@.len()),
        plaintext@.len() <= GCM_MAX_LEN && aad@.len() <= GCM_MAX_LEN ==> r is Ok,
{
    let nonce = random_nonce();
    let sealed = gcm_encrypt(key, &nonce, plaintext, aad)?;
    let mut output: Vec<u8> = Vec::new();
    let mut i: usize = 0;
    while i < 12
        invariant
            i <= 12,
            output@ == nonce@.take(i as int),
        decreases 12 - i,
    {
        output.push(nonce[i]);
        i = i + 1;
        assert(output@ =~= nonce@.take(i as int));
    }
    let mut j: usize = 0;
    while j < sealed.len()
        invariant
            j <= sealed.len(),
            output@ == nonce@ + sealed@.take(j as int),
        decreases sealed.len() - j,
    {
        output.push(sealed[j]);
        j = j + 1;
        assert(output@ =~= nonce@ + sealed@.take(j as int));
    }
    assert(sealed@.take(sealed.len() as int) =~= sealed@);
    assert(nonce@.take(12) =~= nonce@);
    let out = b64_encode_bytes(output.as_slice());
    assert(base64_of(nonce@ + gcm_seal(key@, nonce@, plaintext@, aad@)) == out@);
    assert(base64_decoded(out@) == Some(nonce@ + gcm_seal(key@, nonce@, plaintext@, aad@)));
    Ok(out)
}

/// Law: what `encrypt_with_aad` produces decrypts, under the same key and associated data, to
/// the plaintext it encrypted.
pub proof fn law_encryption_decrypts(out: Seq<char>, key: Seq<u8>, plaintext: Seq<u8>, aad: Seq<u8>)
    requires
        is_encryption_of(out, key, plaintext, aad),
    ensures
        decryption_of(out, key, aad) == Some(plaintext),
{
    let n = choose|n: Seq<u8>| {
        &&& n.len() == 12
        &&& #[trigger] base64_of(n + gcm_seal(key, n, plaintext, aad)) == out
        &&& base64_decoded(out) == Some(n + gcm_seal(key, n, plaintext, aad))
        &&& gcm_open(key, n, gcm_seal(key, n, plaintext, aad), aad) == Some(plaintext)
    };
    let d = n + gcm_seal(key, n, plaintext, aad);
    assert(d.take(12) =~= n);
    assert(d.skip(12) =~= gcm_seal(key, n, plaintext, aad));
}

/// Decrypts base64 text produced by `encrypt`.
pub fn decrypt(key: &[u8; 32], encrypted_b64: &str) -> (r: Result<Vec<u8>, String>)
    ensures
        match r {
            Ok(p) => decryption_of(encrypted_b64@, key@, Seq::<u8>::empty()) == Some(p@),
            Err(_) => decryption_of(encrypted_b64@, key@, Seq::<u8>::empty()) is None,
        },
        forall|p: Seq<u8>| #[trigger] is_encryption_of(encrypted_b64@, key@, p, Seq::<u8>::empty()) ==> r is Ok && r->Ok_0@ == p,
        base64_decoded(encrypted_b64@) matches Some(d) && d.len() < sealed_text_len(0) ==> r is Err,
{
    let empty: [u8; 0] = [];
    assert(empty@ =~= Seq::<u8>::empty());
    decrypt_with_aad(key, encrypted_b64, &empty)
}

/// Decrypts base64 text produced by `encrypt_with_aad` with the same associated data; fails
/// on text that is not base64, shorter than a nonce, or does not authenticate.
pub fn decrypt_with_aad(key: &[u8; 32], encrypted_b64: &str, aad: &[u8]) -> (r: Result<Vec<u8>, String>)
    ensures
        match r {
            Ok(p) => decryption_of(encrypted_b64@, key@, aad@) == Some(p@),
            Err(_) => decryption_of(encrypted_b64@, key@, aad@) is None,
        },
        forall|p: Seq<u8>| #[trigger] is_encryption_of(encrypted_b64@, key@, p, aad@) ==> r is Ok && r->Ok_0@ == p,
        base64_decoded(encrypted_b64@) matches Some(d) && d.len() < sealed_text_len(0) ==> r is Err,
{
    let ghost enc = encrypted_b64@;
    let data = match b64_decode(encrypted_b64) {
        Ok(d) => d,
        Err(e) => {
            let mut msg = crate::text::owned("base64 decode: ");
            crate::text::push_str(&mut msg, e.as_str());
            proof {
                assert forall|p: Seq<u8>| !#[trigger] is_encryption_of(enc, key@, p, aad@) by {
                    if is_encryption_of(enc, key@, p, aad@) {
                        let n = choose|n: Seq<u8>| n.len() == 12 && #[trigger] base64_of(n + gcm_seal(key@, n, p, aad@)) == enc;
                        assert(base64_of(n + gcm_seal(key@, n, p, aad@)) == enc);
                    }
                }
            }
            return Err(msg);
        },
    };
    proof {
        assert forall|p: Seq<u8>| #[trigger] is_encryption_of(enc, key@, p, aad@) implies
            data@.len() >= 12 && data@.take(12).len() == 12 && gcm_seal(key@, data@.take(12), p, aad@) == data@.skip(12)
                && gcm_open(key@, data@.take(12), data@.skip(12), aad@) == Some(p) by {
            let n = choose|n: Seq<u8>| {
                &&& n.len() == 12
                &&& #[trigger] base64_of(n + gcm_seal(key@, n, p, aad@)) == enc
                &&& base64_decoded(enc) == Some(n + gcm_seal(key@, n, p, aad@))
                &&& gcm_open(key@, n, gcm_seal(key@, n, p, aad@), aad@) == Some(p)
                &&& gcm_seal(key@, n, p, aad@).len() == p.len() + 16
                &&& enc.len() == 4 * ((28 + p.len() + 2) / 3)
            };
            assert(base64_of(n + gcm_seal(key@, n, p, aad@)) == enc);
            assert(data@ == n + gcm_seal(key@, n, p, aad@));
            assert(data@.take(12) =~= n);
            assert(data@.skip(12) =~= gcm_seal(key@, n, p, aad@));
        }
    }
    if data.len() < 12 {
        return Err(crate::text::owned("data too short"));
    }
    let mut nonce: Vec<u8> = Vec::new();
    let mut sealed: Vec<u8> = Vec::new();
    let mut i: usize = 0;
    while i < data.len()
        invariant
            i <= data.len(),
            data@.len() >= 12,
            nonce@ == data@.take(if i < 12 { i as int } else { 12 }),
            sealed@ == (if i < 12 { Seq::<u8>::empty() } else { data@.subrange(12, i as int) }),
        decreases data.len() - i,
    {
        if i < 12 {
            nonce.push(data[i]);
        } else {
            sealed.push(data[i]);
        }
        i = i + 1;
        assert(nonce@ =~= data@.take(if i < 12 { i as int } else { 12 }));
        assert(sealed@ =~= (if i < 12 { Seq::<u8>::empty() } else { data@.subrange(12, i as int) }));
    }
    assert(data@.subrange(12, data@.len() as int) =~= data@.skip(12));
    let r = gcm_decrypt(key, nonce.as_slice(), sealed.as_slice(), aad);
    proof {
        assert forall|p: Seq<u8>| #[trigger] is_encryption_of(enc, key@, p, aad@) implies r is Ok && r->Ok_0@ == p by {
            assert(gcm_open(key@, nonce@, sealed@, aad@) == Some(p));
        }
    }
    r
}

} // verus!
