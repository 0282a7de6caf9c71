//! Elliptic-curve Diffie-Hellman on P-256, through the `p256` crate. A secret key is held as
//! its 32-byte scalar; a public key travels as base64 of its SEC1 encoding.
use vstd::prelude::*;
use vstd::string::*;
use crate::crypto::b64::{b64_decode, b64_encode_bytes, base64_decoded, base64_of};

verus! {

/// Name for the SEC1 (uncompressed) encoding of the public key of secret scalar `secret`.
pub uninterp spec fn p256_public_of(secret: Seq<u8>) -> Seq<u8>;

/// Name for the raw Diffie-Hellman secret of `secret` with the peer public key `peer` (SEC1
/// bytes); `None` when either is not a valid key.
pub uninterp spec fn p256_shared(secret: Seq<u8>, peer: Seq<u8>) -> Option<Seq<u8>>;

/// Name for the SEC1 PEM text (`\n` line endings) of secret scalar `secret`.
pub uninterp spec fn p256_secret_pem(secret: Seq<u8>) -> Seq<char>;

/// Name for the secret scalar held by SEC1 PEM text, `None` when it holds none.
pub uninterp spec fn p256_pem_secret(pem: Seq<char>) -> Option<Seq<u8>>;

/// The unsigned integer whose big-endian bytes are `bytes`.
pub open spec fn be_value(bytes: Seq<u8>) -> nat
    decreases bytes.len(),
{
    if bytes.len() == 0 {
        0
    } else {
        be_value(bytes.drop_last()) * 256 + (bytes.last() as nat)
    }
}

/// The order of the P-256 group.
pub open spec fn p256_order() -> nat {
    0xffffffff00000000ffffffffffffffffbce6faada7179e84f3b9cac2fc632551nat
}

/// 32 bytes are a P-256 secret scalar when, read big-endian, they are neither zero nor
/// below the group order.
pub open spec fn p256_valid_scalar(secret: Seq<u8>) -> bool {
    0 < be_value(secret) < p256_order()
}

/// A fresh key pair from `SecretKey::random(&mut OsRng)`: the secret scalar and the SEC1
/// encoding of its public key (`EncodedPoint::from(secret.public_key())`). The scalar is
/// random, always a valid scalar (`NonZeroScalar::random` draws a non-zero scalar below the
/// order); the public part is named by `p256_public_of` of it.
#[verifier::external_body]
fn random_keypair() -> (r: ([u8; 32], Vec<u8>))
    ensures
        r.1@ == p256_public_of(r.0@),
        p256_valid_scalar(r.0@),
{
    let secret = p256::SecretKey::random(&mut rand::rngs::OsRng);
    let public = p256::EncodedPoint::from(secret.public_key());
    (secret.to_bytes().into(), public.as_bytes().to_vec())
}

/// Wraps `SecretKey::from_slice`, `SecretKey::public_key` and `EncodedPoint::from`. The
/// crate accepts 32 bytes exactly when their big-endian value is a non-zero scalar below the
/// group order (`ScalarPrimitive::new` and the zero check of `SecretKey::from_bytes`); the
/// public key is then always computed. The result is named by `p256_public_of`.
#[verifier::external_body]
fn public_point(secret: &[u8; 32]) -> (r: Option<Vec<u8>>)
    ensures
        r matches Some(p) ==> p@ == p256_public_of(secret@),
        r is Some <==> p256_valid_scalar(secret@),
{
    let key = p256::SecretKey::from_slice(secret).ok()?;
    Some(p256::EncodedPoint::from(key.public_key()).as_bytes().to_vec())
}

/// Wraps `SecretKey::from_slice`, `PublicKey::from_sec1_bytes` and
/// `p256::ecdh::diffie_hellman` (`raw_secret_bytes`). The result is named by `p256_shared`; a
/// failure carries the crate's error text.
#[verifier::external_body]
fn diffie_hellman(secret: &[u8; 32], peer: &[u8]) -> (r: Result<Vec<u8>, String>)
    ensures
        match r {
            Ok(s) => p256_shared(secret@, peer@) == Some(s@),
            Err(_) => p256_shared(secret@, peer@) is None,
        },
{
    let key = p256::SecretKey::from_slice(secret).map_err(|e| format!("invalid secret key: {:?}", e))?;
    let peer_pub = p256::PublicKey::from_sec1_bytes(peer).map_err(|e| format!("invalid public key: {:?}", e))?;
    let shared = p256::ecdh::diffie_hellman(key.to_nonzero_scalar(), peer_pub.as_affine());
    Ok(shared.raw_secret_bytes().to_vec())
}

/// Wraps `SecretKey::from_sec1_pem` (then `SecretKey::to_bytes`); named by
/// `p256_pem_secret`.
#[verifier::external_body]
pub fn secret_from_pem(pem: &str) -> (r: Result<[u8; 32], String>)
    ensures
        match r {
            Ok(k) => p256_pem_secret(pem@) == Some(k@),
            Err(_) => p256_pem_secret(pem@) is None,
        },
{
    p256::SecretKey::from_sec1_pem(pem).map(|k| k.to_bytes().into()).map_err(|e| format!("{:?}", e))
}

/// Wraps `SecretKey::from_slice` and `SecretKey::to_sec1_pem(LineEnding::LF)`; the text (with
/// `\n` line endings on every machine) is named by `p256_secret_pem`. It fails exactly when
/// `from_slice` refuses the bytes (not a scalar in `1..order`); the DER and PEM encoding of a
/// key of this fixed size does not fail.
#[verifier::external_body]
pub fn secret_to_pem(key: &[u8; 32]) -> (r: Result<String, String>)
    ensures
        r is Ok <==> p256_valid_scalar(key@),
        r matches Ok(t) ==> t@ == p256_secret_pem(key@),
{
    let k = p256::SecretKey::from_slice(key).map_err(|e| format!("{:?}", e))?;
    k.to_sec1_pem(p256::pkcs8::LineEnding::LF).map_err(|e| format!("{:?}", e)).map(|z| z.to_string())
}

/// A fresh key pair: the secret scalar and base64 of its public key.
pub fn generate_keypair() -> (r: ([u8; 32], String))
    ensures
        r.1@ == base64_of(p256_public_of(r.0@)),
        p256_valid_scalar(r.0@),
{
    let (secret, public) = random_keypair();
    let b64 = b64_encode_bytes(public.as_slice());
    (secret, b64)
}

/// Base64 of the public key of `secret`, `None` when it is not a valid scalar.
pub fn public_key_to_b64(secret: &[u8; 32]) -> (r: Option<String>)
    ensures
        r matches Some(t) ==> t@ == base64_of(p256_public_of(secret@)),
        r is Some <==> p256_valid_scalar(secret@),
{
    match public_point(secret) {
        Some(p) => Some(b64_encode_bytes(p.as_slice())),
        None => None,
    }
}

/// The raw shared secret of `private` with the peer key `peer_pub_b64` (base64 SEC1).
pub fn compute_shared_secret(private: &[u8; 32], peer_pub_b64: &str) -> (r: Result<Vec<u8>, String>)
    ensures
        match r {
            Ok(s) => base64_decoded(peer_pub_b64@) matches Some(peer) && p256_shared(private@, peer) == Some(s@),
            Err(_) => !(base64_decoded(peer_pub_b64@) matches Some(peer) && p256_shared(private@, peer) is Some),
        },
{
    let peer = match b64_decode(peer_pub_b64) {
        Ok(b) => b,
        Err(e) => {
            let mut msg = crate::text::owned("base64 decode: ");
            crate::text::push_str(&mut msg, e.as_str());
            return Err(msg);
        },
    };
    diffie_hellman(private, peer.as_slice())
}

} // verus!
