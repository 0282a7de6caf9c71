//! Standard base64 (RFC 4648 alphabet, with padding), through the `base64` crate.
use vstd::prelude::*;
use vstd::string::*;
use vstd::utf8::*;
use base64::Engine;

verus! {

/// Name for the standard base64 text of `bytes`.
pub uninterp spec fn base64_of(bytes: Seq<u8>) -> Seq<char>;

/// Name for what decoding `text` as standard base64 gives (`None` when it is not valid).
pub uninterp spec fn base64_decoded(text: Seq<char>) -> Option<Seq<u8>>;

/// The base64 text of the UTF-8 bytes of `s`.
pub open spec fn base64_text(s: Seq<char>) -> Seq<char> {
    base64_of(encode_utf8(s))
}

/// Wraps `base64::engine::general_purpose::STANDARD.encode`; the result is named by
/// `base64_of`, the same engine decodes it back to `bytes`, and with padding it is four
/// characters for each started group of three bytes (`encoded_len`).
#[verifier::external_body]
pub(crate) fn b64_encode_bytes(bytes: &[u8]) -> (r: String)
    ensures
        r@ == base64_of(bytes@),
        base64_decoded(r@) == Some(bytes@),
        r@.len() == 4 * ((bytes@.len() + 2) / 3),
{
    base64::engine::general_purpose::STANDARD.encode(bytes)
}

/// The base64 text of the UTF-8 bytes of `s`.
pub fn b64_encode(s: &str) -> (r: String)
    ensures
        r@ == base64_text(s@),
{
    b64_encode_bytes(s.as_bytes())
}

/// Wraps `base64::engine::general_purpose::STANDARD.decode`; the result is named by
/// `base64_decoded`, and a failure carries the crate's error text. The crate's engine decodes
/// what it encoded: text that is the encoding of some bytes decodes to exactly those bytes.
#[verifier::external_body]
pub(crate) fn b64_decode(text: &str) -> (r: Result<Vec<u8>, String>)
    ensures
        match r {
            Ok(v) => base64_decoded(text@) == Some(v@),
            Err(_) => base64_decoded(text@) is None,
        },
        forall|b: Seq<u8>| #[trigger] base64_of(b) == text@ ==> r is Ok && r->Ok_0@ == b,
{
    base64::engine::general_purpose::STANDARD.decode(text).map_err(|e| format!("{}", e))
}

/// Copies 32 bytes into a key array.
pub fn key_from_vec(v: &Vec<u8>) -> (r: [u8; 32])
    requires
        v@.len() == 32,
    ensures
        r@ == v@,
{
    let mut arr = [0u8; 32];
    let mut i: usize = 0;
    while i < 32
        invariant
            i <= 32,
            v@.len() == 32,
            forall|j: int| 0 <= j < i ==> arr@[j] == v@[j],
        decreases 32 - i,
    {
        arr[i] = v[i];
        i = i + 1;
    }
    assert(arr@ =~= v@);
    arr
}

/// The 32-byte key encoded by base64 text, if it decodes to exactly 32 bytes.
pub fn decode_key(text: &str) -> (r: Option<[u8; 32]>)
    ensures
        match r {
            Some(k) => base64_decoded(text@) == Some(k@),
            None => !(base64_decoded(text@) matches Some(b) && b.len() == 32),
        },
{
    match b64_decode(text) {
        Ok(v) => {
            if v.len() == 32 {
                Some(key_from_vec(&v))
            } else {
                None
            }
        },
        Err(_) => None,
    }
}

} // verus!
