//! The ephemeral ECDH key pair of a pairing, the key that protects the pairing code, and the
//! code's encryption under it.
use vstd::prelude::*;
use vstd::string::*;
use vstd::utf8::*;
use crate::crypto::aes::{decrypt, decryption_of, encrypt, is_encryption_of, GCM_MAX_LEN};
use crate::crypto::b64::{base64_decoded, base64_of};
use crate::crypto::ecdh::{compute_shared_secret, generate_keypair, p256_public_of, p256_shared, p256_valid_scalar};
use crate::crypto::hkdf::{derive_pairing_key, hkdf_sha256_32, zero_salt, PAIRING_CODE_INFO};
use crate::crypto::keys::{CryptoState, session_key_of};
use crate::processing::{lossy_text, utf8_lossy};
use crate::protocol::binary_codec::{json_quote, json_string};
use crate::text::{push_char, push_str};
use crate::vecmap::last_value;

verus! {

/// The ephemeral key pair of a pairing in progress and the pairing-code key derived from it.
pub struct EphemeralPairing {
    pub key: Option<[u8; 32]>,
    pub pub_b64: Option<String>,
    pub pairing_key: Option<[u8; 32]>,
}

impl EphemeralPairing {
    /// Nothing held.
    pub fn new() -> (r: EphemeralPairing)
        ensures
            r.key is None && r.pub_b64 is None && r.pairing_key is None,
    {
        EphemeralPairing { key: None, pub_b64: None, pairing_key: None }
    }

    /// A fresh ephemeral key pair replaces the held one (the pairing-code key stays).
    pub fn generate(&mut self)
        ensures
            final(self).key matches Some(k) && p256_valid_scalar(k@)
                && (final(self).pub_b64 matches Some(p) && p@ == base64_of(p256_public_of(k@))),
            final(self).pairing_key == old(self).pairing_key,
    {
        let (secret, b64) = generate_keypair();
        self.key = Some(secret);
        self.pub_b64 = Some(b64);
    }

    /// Whether a key pair is held.
    pub fn has_keypair(&self) -> (r: bool)
        ensures
            r == self.key is Some,
    {
        self.key.is_some()
    }

    /// Forgets the key pair and the pairing-code key.
    pub fn clear(&mut self)
        ensures
            final(self).key is None && final(self).pub_b64 is None && final(self).pairing_key is None,
    {
        self.key = None;
        self.pub_b64 = None;
        self.pairing_key = None;
    }

    /// Derives the pairing-code key from the held ephemeral secret and the peer's ephemeral
    /// public key (base64 SEC1): HKDF-SHA256 of the shared secret with context
    /// `PAIRING_CODE_INFO`. Without a key pair, or when no shared secret results, nothing
    /// changes and `false` is answered.
    pub fn derive_pairing_key(&mut self, peer_b64: &str) -> (r: bool)
        ensures
            r == (old(self).key matches Some(k) && base64_decoded(peer_b64@) matches Some(p) && p256_shared(k@, p) is Some),
            !r ==> *final(self) == *old(self),
            r ==> final(self).key == old(self).key && final(self).pub_b64 == old(self).pub_b64
                && (final(self).pairing_key matches Some(pk) && pk@ == hkdf_sha256_32(zero_salt(),
                    p256_shared(old(self).key->0@, base64_decoded(peer_b64@)->0)->0, encode_utf8(PAIRING_CODE_INFO@))),
    {
        let k = match self.key {
            Some(k) => k,
            None => return false,
        };
        match compute_shared_secret(&k, peer_b64) {
            Ok(shared) => {
                self.pairing_key = Some(derive_pairing_key(shared.as_slice()));
                true
            },
            Err(_) => false,
        }
    }

    /// The pairing code encrypted under the pairing-code key (base64), `None` without that key
    /// (or beyond the cipher's length limit).
    pub fn encrypt_code(&self, code: &str) -> (r: Option<String>)
        ensures
            self.pairing_key is None ==> r is None,
            self.pairing_key matches Some(k) ==> {
                &&& (encode_utf8(code@).len() <= GCM_MAX_LEN ==> r is Some)
                &&& (r matches Some(t) ==> is_encryption_of(t@, k@, encode_utf8(code@), Seq::<u8>::empty()))
            },
    {
        match self.pairing_key {
            Some(k) => match encrypt(&k, code.as_bytes()) {
                Ok(e) => Some(e),
                Err(_) => None,
            },
            None => None,
        }
    }

    /// The pairing code decrypted with the pairing-code key (as lossy text), `None` without
    /// that key or when the text does not decrypt.
    pub fn decrypt_code(&self, encrypted_b64: &str) -> (r: Option<String>)
        ensures
            match self.pairing_key {
                None => r is None,
                Some(k) => match decryption_of(encrypted_b64@, k@, Seq::<u8>::empty()) {
                    Some(b) => r matches Some(t) && t@ == lossy_text(b),
                    None => r is None,
                },
            },
    {
        match self.pairing_key {
            Some(k) => match decrypt(&k, encrypted_b64) {
                Ok(b) => Some(utf8_lossy(b.as_slice())),
                Err(_) => None,
            },
            None => None,
        }
    }
}

/// A payload encrypted (without associated data) by the session key of `uuid`, decrypted as
/// lossy text; `None` without a usable key or when it does not decrypt.
pub fn decrypt_payload(crypto: &CryptoState, uuid: &str, encrypted_b64: &str) -> (r: Option<String>)
    ensures
        match last_value(crypto.device_keys@, uuid@) {
            None => r is None,
            Some(e) => match session_key_of(e) {
                None => r is None,
                Some(k) => match decryption_of(encrypted_b64@, k, Seq::<u8>::empty()) {
                    Some(b) => r matches Some(t) && t@ == lossy_text(b),
                    None => r is None,
                },
            },
        },
{
    match crypto.get_aes_key(uuid) {
        Some(k) => match decrypt(&k, encrypted_b64) {
            Ok(b) => Some(utf8_lossy(b.as_slice())),
            Err(_) => None,
        },
        None => None,
    }
}

/// A JSON string value, or `null` for none.
pub open spec fn json_opt(v: Option<Seq<char>>) -> Seq<char> {
    match v {
        Some(s) => json_string(s),
        None => "null"@,
    }
}

/// The local key pair report `{"private_key_pem":...,"public_key_b64":...}` (`null` for a
/// missing part).
pub open spec fn keypair_json_spec(pem: Option<Seq<char>>, pub_b64: Option<Seq<char>>) -> Seq<char> {
    seq!['{'] + json_string("private_key_pem"@) + seq![':'] + json_opt(pem) + seq![',']
        + json_string("public_key_b64"@) + seq![':'] + json_opt(pub_b64) + seq!['}']
}

fn push_json_opt(out: &mut String, v: &Option<String>)
    ensures
        final(out)@ == old(out)@ + json_opt(match v { Some(s) => Some(s@), None => None }),
{
    match v {
        Some(s) => {
            let q = json_quote(s.as_str());
            push_str(out, q.as_str());
        },
        None => {
            push_str(out, "null");
        },
    }
}

/// The local key pair report of `crypto`: the secret as PEM (none when it cannot be written)
/// and the public key.
pub fn local_keypair_json(crypto: &CryptoState) -> (r: String)
    ensures
        r@ == keypair_json_spec(
            match crypto.local_key {
                Some(k) => if p256_valid_scalar(k@) { Some(crate::crypto::ecdh::p256_secret_pem(k@)) } else { None },
                None => None,
            },
            match crypto.local_pub_key_b64 { Some(p) => Some(p@), None => None },
        ),
{
    let pem: Option<String> = match &crypto.local_key {
        Some(k) => match crate::crypto::ecdh::secret_to_pem(k) {
            Ok(p) => Some(p),
            Err(_) => None,
        },
        None => None,
    };
    let mut out = String::new();
    push_char(&mut out, '{');
    let k1 = json_quote("private_key_pem");
    push_str(&mut out, k1.as_str());
    push_char(&mut out, ':');
    push_json_opt(&mut out, &pem);
    push_char(&mut out, ',');
    let k2 = json_quote("public_key_b64");
    push_str(&mut out, k2.as_str());
    push_char(&mut out, ':');
    push_json_opt(&mut out, &crypto.local_pub_key_b64);
    push_char(&mut out, '}');
    assert(out@ =~= keypair_json_spec(
        match pem { Some(p) => Some(p@), None => None },
        match crypto.local_pub_key_b64 { Some(p) => Some(p@), None => None },
    ));
    out
}

} // verus!
