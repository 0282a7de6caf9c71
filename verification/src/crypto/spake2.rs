//! SPAKE2 password-authenticated key exchange over Ed25519, through the `spake2` crate; the
//! exchanged messages travel as base64.
use vstd::prelude::*;
use vstd::string::*;
use vstd::utf8::*;
use crate::crypto::b64::{b64_decode, b64_encode_bytes, base64_decoded, base64_of};

verus! {

/// The crate's state of one side of an exchange (`spake2::Spake2<Ed25519Group>`).
#[verifier::external_body]
struct Spake2Exchange {
    inner: spake2::Spake2<spake2::Ed25519Group>,
}

/// One side of a SPAKE2 exchange in progress: the crate's state and the side it plays.
pub struct Spake2Session {
    exchange: Spake2Exchange,
    prover: bool,
}

pub type Spake2ProverSession = Spake2Session;
pub type Spake2VerifierSession = Spake2Session;

/// The side byte the crate puts in front of the message of the prover (`'A'`) or of the
/// verifier (`'B'`).
pub open spec fn side_byte(prover: bool) -> u8 {
    if prover { 0x41u8 } else { 0x42u8 }
}

/// Length (bytes) of an exchanged message: the side byte and an Ed25519 element.
pub open spec fn spake2_msg_len() -> nat {
    33
}

/// The base64 text `t` carries a message of the given side.
pub open spec fn is_side_message(t: Seq<char>, prover: bool) -> bool {
    exists|m: Seq<u8>| {
        &&& #[trigger] base64_of(m) == t
        &&& base64_decoded(t) == Some(m)
        &&& m.len() == spake2_msg_len()
        &&& m[0] == side_byte(prover)
    }
}

/// Why finishing with the peer's message `peer` (decoded, when it is base64) must fail for
/// a session on side `prover`: it is no base64, it is not 33 bytes long, or it does not come
/// from the other side.
pub open spec fn peer_message_refused(peer: Option<Seq<u8>>, prover: bool) -> bool {
    match peer {
        None => true,
        Some(m) => m.len() != spake2_msg_len() || m[0] != side_byte(!prover),
    }
}

/// Name for whether 32 bytes are the compressed form of an Ed25519 point
/// (`CompressedEdwardsY::decompress` gives one).
pub uninterp spec fn spake2_point_ok(b: Seq<u8>) -> bool;

/// The crate finishes a session on side `prover` with the peer's message `peer` (decoded,
/// when it is base64): it is 33 bytes from the other side, and its last 32 bytes are a point.
pub open spec fn peer_message_accepted(peer: Option<Seq<u8>>, prover: bool) -> bool {
    match peer {
        None => false,
        Some(m) => !peer_message_refused(Some(m), prover) && spake2_point_ok(m.subrange(1, 33)),
    }
}

impl Spake2Session {
    /// Whether this session plays the prover side.
    pub closed spec fn is_prover(&self) -> bool {
        self.prover
    }
}

/// Starts a side of the exchange with `Spake2::<Ed25519Group>::start_a` (prover) or
/// `start_b` (verifier), password `pin`, identities `prover` and `verifier`. The crate's
/// message is the side byte (`'A'` or `'B'`) followed by the 32 bytes of an Ed25519 element;
/// the element and the state are random.
#[verifier::external_body]
fn spake2_start(pin: &str, as_prover: bool) -> (r: (Spake2Exchange, Vec<u8>))
    ensures
        r.1@.len() == spake2_msg_len(),
        r.1@[0] == side_byte(as_prover),
{
    let pw = spake2::Password::new(pin.as_bytes());
    let a = spake2::Identity::new(b"prover");
    let b = spake2::Identity::new(b"verifier");
    let (inner, msg) = if as_prover {
        spake2::Spake2::<spake2::Ed25519Group>::start_a(&pw, &a, &b)
    } else {
        spake2::Spake2::<spake2::Ed25519Group>::start_b(&pw, &a, &b)
    };
    (Spake2Exchange { inner }, msg)
}

/// Wraps `Spake2::finish` on the session's state: the shared key, or the crate's error text.
/// The session's state was started on the side its `prover` field names (both are set
/// together, below, and nowhere else). The crate refuses a message that is not 33 bytes long,
/// one whose side byte is not the other side's and one whose last 32 bytes are not a point
/// (`Ed25519Group::bytes_to_element`); otherwise it gives the key, a SHA-256 digest.
#[verifier::external_body]
fn spake2_finish(session: Spake2Session, msg: &[u8]) -> (r: Result<Vec<u8>, String>)
    ensures
        r is Ok <==> (!peer_message_refused(Some(msg@), session.is_prover()) && spake2_point_ok(msg@.subrange(1, 33))),
        r matches Ok(k) ==> k@.len() == 32,
{
    session.exchange.inner.finish(msg).map_err(|e| format!("{:?}", e))
}

/// Starts a side with the pairing code `pin`: the session and its base64 message.
fn start_session(pin: &str, prover: bool) -> (r: (Spake2Session, String))
    ensures
        r.0.is_prover() == prover,
        is_side_message(r.1@, prover),
{
    let (exchange, msg) = spake2_start(pin, prover);
    let b64 = b64_encode_bytes(msg.as_slice());
    assert(base64_of(msg@) == b64@);
    (Spake2Session { exchange, prover }, b64)
}

/// Starts the prover side with the pairing code `pin`: the session and its base64 message,
/// a prover message of 33 bytes.
pub fn generate_prover_session(pin: &str) -> (r: (Spake2ProverSession, String))
    ensures
        r.0.is_prover(),
        is_side_message(r.1@, true),
{
    start_session(pin, true)
}

/// Starts the verifier side with the pairing code `pin`: the session and its base64
/// message, a verifier message of 33 bytes.
pub fn generate_verifier_session(pin: &str) -> (r: (Spake2VerifierSession, String))
    ensures
        !r.0.is_prover(),
        is_side_message(r.1@, false),
{
    start_session(pin, false)
}

/// Finishes a side with the peer's base64 message: the 32-byte key exactly when the text is
/// base64 of a 33-byte message from the other side whose last 32 bytes are a point.
fn complete(session: Spake2Session, peer_b64: &str, side: &str) -> (r: Result<Vec<u8>, String>)
    ensures
        r is Ok <==> peer_message_accepted(base64_decoded(peer_b64@), session.is_prover()),
        r matches Ok(k) ==> k@.len() == 32,
{
    let bytes = match b64_decode(peer_b64) {
        Ok(b) => b,
        Err(e) => {
            let mut msg = crate::text::owned("base64 decode: ");
            crate::text::push_str(&mut msg, e.as_str());
            return Err(msg);
        },
    };
    match spake2_finish(session, bytes.as_slice()) {
        Ok(k) => Ok(k),
        Err(e) => {
            let mut msg = crate::text::owned(side);
            crate::text::push_str(&mut msg, " finish failed: ");
            crate::text::push_str(&mut msg, e.as_str());
            Err(msg)
        },
    }
}

/// Finishes the prover side with the verifier's base64 message (the 32-byte key).
pub fn prover_complete(session: Spake2ProverSession, verifier_pub_b64: &str) -> (r: Result<Vec<u8>, String>)
    ensures
        r is Ok <==> peer_message_accepted(base64_decoded(verifier_pub_b64@), session.is_prover()),
        r matches Ok(k) ==> k@.len() == 32,
{
    complete(session, verifier_pub_b64, "prover")
}

/// Finishes the verifier side with the prover's base64 message (the 32-byte key).
pub fn verifier_complete(session: Spake2VerifierSession, prover_pub_b64: &str) -> (r: Result<Vec<u8>, String>)
    ensures
        r is Ok <==> peer_message_accepted(base64_decoded(prover_pub_b64@), session.is_prover()),
        r matches Ok(k) ==> k@.len() == 32,
{
    complete(session, prover_pub_b64, "verifier")
}

} // verus!
