//! Handling of incoming frames: what each frame changes in the core's state and what it
//! reports to the platform. The caller reads and decodes the frame, hands the pieces in, and
//! performs the sends and callbacks these functions answer.
use vstd::prelude::*;
use vstd::string::*;
use vstd::utf8::*;
use crate::crypto::aes::{decrypt, decrypt_with_aad, decryption_of, encrypt, is_encryption_of, GCM_MAX_LEN};
use crate::crypto::b64::{b64_decode, b64_encode_bytes, base64_decoded, base64_of};
use crate::crypto::ecdh::{compute_shared_secret, p256_shared};
use crate::crypto::hkdf::{derive_session_key, hkdf_sha256_32, zero_salt, SESSION_KEY_INFO};
use crate::crypto::keys::{CryptoState, DeviceKeyEntry, session_key_of};
use crate::device_registry::{DeviceRegistry, DeviceView, base_device, merge_fields, replaced};
use crate::discovery::DiscoveryState;
use crate::heartbeat::HeartbeatState;
use crate::protocol::binary_codec::{HeartbeatPayload, ProtoHandshake, json_string, json_string_array, push_json_key, push_json_str_array, push_json_str_field, push_json_int_field, type_data_header, type_to_data_header};
use crate::protocol::codec::{DEFAULT_TCP_PORT, accept_text, encode_accept, encode_ack, encode_pairing_resp, pairing_resp_text};
use crate::protocol::header::MessageType;
use crate::protocol::inbound::{DataFields, PairingInit, PairingResp, decode_data_payload, data_fields_spec};
use crate::crypto::spake2::{Spake2Session, peer_message_accepted, prover_complete, verifier_complete};
use crate::protocol::version::{data_aad, major_minor_spec, aad_text};
use crate::text::{dec_int, owned, push_char, push_str, str_eq, utf8_text};
use crate::vecmap::{last_value, without_key};

verus! {

/// Name for `String::from_utf8_lossy`: the text of `bytes` with each invalid sequence
/// replaced by U+FFFD.
pub uninterp spec fn lossy_text(bytes: Seq<u8>) -> Seq<char>;

/// Wraps `String::from_utf8_lossy`; named by `lossy_text`. Valid UTF-8 is decoded unchanged.
#[verifier::external_body]
pub(crate) fn utf8_lossy(bytes: &[u8]) -> (r: String)
    ensures
        r@ == lossy_text(bytes@),
        valid_utf8(bytes@) ==> r@ == decode_utf8(bytes@),
{
    String::from_utf8_lossy(bytes).to_string()
}

/// A peer name sent as base64: the decoded text; the raw text when the decoded bytes are not
/// UTF-8; empty when it is not base64.
pub open spec fn peer_name_spec(name_b64: Seq<char>) -> Seq<char> {
    match base64_decoded(name_b64) {
        None => Seq::empty(),
        Some(b) => if valid_utf8(b) {
            decode_utf8(b)
        } else {
            name_b64
        },
    }
}

/// Decodes a peer name sent as base64; see `peer_name_spec`.
pub fn decode_peer_name(name_b64: &str) -> (r: String)
    ensures
        r@ == peer_name_spec(name_b64@),
{
    let bytes = match b64_decode(name_b64) {
        Ok(b) => b,
        Err(_) => Vec::new(),
    };
    proof {
        if base64_decoded(name_b64@) is None {
            assert(bytes@ =~= Seq::<u8>::empty());
        }
    }
    match utf8_text(bytes.as_slice()) {
        Some(s) => {
            proof {
                if base64_decoded(name_b64@) is None {
                    assert(valid_utf8(Seq::<u8>::empty()));
                    assert(decode_utf8(Seq::<u8>::empty()) =~= Seq::<char>::empty());
                }
            }
            s
        },
        None => owned(name_b64),
    }
}

/// The text of an optional string.
pub open spec fn opt_text(o: Option<&str>) -> Option<Seq<char>> {
    match o {
        Some(u) => Some(u@),
        None => None,
    }
}

// ===================== JSON pieces =====================

/// `"key":"value"` in JSON.
pub open spec fn jstr(key: Seq<char>, value: Seq<char>) -> Seq<char> {
    json_string(key) + seq![':'] + json_string(value)
}

/// `"key":number` in JSON.
pub open spec fn jint(key: Seq<char>, value: int) -> Seq<char> {
    json_string(key) + seq![':'] + dec_int(value)
}

/// `"key":true|false` in JSON.
pub open spec fn jbool(key: Seq<char>, value: bool) -> Seq<char> {
    json_string(key) + seq![':'] + (if value { "true"@ } else { "false"@ })
}

fn push_bool_field(out: &mut String, key: &str, value: bool)
    ensures
        final(out)@ == old(out)@ + jbool(key@, value),
{
    push_json_key(out, key);
    if value {
        push_str(out, "true");
    } else {
        push_str(out, "false");
    }
}

fn push_str_field(out: &mut String, key: &str, value: &str)
    ensures
        final(out)@ == old(out)@ + jstr(key@, value@),
{
    push_json_str_field(out, key, value);
}

fn push_int_field(out: &mut String, key: &str, value: i64)
    ensures
        final(out)@ == old(out)@ + jint(key@, value as int),
{
    push_json_int_field(out, key, value);
}

fn push_comma(out: &mut String)
    ensures
        final(out)@ == old(out)@ + seq![','],
{
    let ghost before = out@;
    push_char(out, ',');
    assert(before.push(',') =~= before + seq![',']);
}

// ===================== heartbeat =====================

/// The report of a TCP heartbeat: `{"battery","device_type","ip":"","name","port","uuid"}`.
pub open spec fn heartbeat_event_json(uuid: Seq<char>, name: Seq<char>, port: u16, battery: i32, device_type: Seq<char>) -> Seq<char> {
    seq!['{'] + jint("battery"@, battery as int) + seq![','] + jstr("device_type"@, device_type) + seq![',']
        + jstr("ip"@, Seq::empty()) + seq![','] + jstr("name"@, name) + seq![','] + jint("port"@, port as int)
        + seq![','] + jstr("uuid"@, uuid) + seq!['}']
}

/// A TCP heartbeat `hb` arrived at `now` (s) from a peer last seen at address `ip`: the
/// heartbeat is recorded, the registry refreshed with the decoded name, and the report
/// answered.
pub fn accept_heartbeat(
    hb: &HeartbeatPayload,
    heartbeat: &mut HeartbeatState,
    registry: &mut DeviceRegistry,
    ip: &str,
    now: i64,
) -> (r: String)
    requires
        old(registry).wf(),
    ensures
        final(registry).wf(),
        final(heartbeat).last_seen@.len() > 0,
        final(heartbeat).last_seen@.last().0@ == hb.uuid@,
        final(heartbeat).last_seen@.last().1 == now,
        final(heartbeat).last_seen@.drop_last() == without_key(old(heartbeat).last_seen@, hb.uuid@),
        old(heartbeat).wf() ==> final(heartbeat).wf(),
        hb.uuid@.len() == 0 ==> final(registry)@ == old(registry)@,
        hb.uuid@.len() > 0 ==> replaced(old(registry)@, final(registry)@, hb.uuid@, Some(DeviceView {
            last_seen: now,
            ..merge_fields(base_device(old(registry)@, hb.uuid@, 0), peer_name_spec(hb.name@), ip@, hb.port, hb.battery, hb.device_type@)
        })),
        r@ == heartbeat_event_json(hb.uuid@, peer_name_spec(hb.name@), hb.port, hb.battery, hb.device_type@),
{
    heartbeat.record_at(hb.uuid.as_str(), now);
    let name = decode_peer_name(hb.name.as_str());
    registry.upsert_at(hb.uuid.as_str(), name.as_str(), ip, hb.port, hb.battery, hb.device_type.as_str(), now);
    let mut out = String::new();
    push_char(&mut out, '{');
    push_int_field(&mut out, "battery", hb.battery as i64);
    push_comma(&mut out);
    push_str_field(&mut out, "device_type", hb.device_type.as_str());
    push_comma(&mut out);
    push_str_field(&mut out, "ip", "");
    push_comma(&mut out);
    push_str_field(&mut out, "name", name.as_str());
    push_comma(&mut out);
    push_int_field(&mut out, "port", hb.port as i64);
    push_comma(&mut out);
    push_str_field(&mut out, "uuid", hb.uuid.as_str());
    push_char(&mut out, '}');
    proof {
        reveal_strlit("");
        assert(""@ =~= Seq::<char>::empty());
    }
    assert(out@ =~= heartbeat_event_json(hb.uuid@, name@, hb.port, hb.battery, hb.device_type@));
    out
}

// ===================== handshake =====================

/// JSON of the feature list: `null` when absent.
pub open spec fn features_json(f: Option<Seq<Seq<char>>>) -> Seq<char> {
    match f {
        None => "null"@,
        Some(items) => json_string_array(items),
    }
}

/// The report of a handshake: `{"auto_accept","battery","device_name","device_type",
/// "feature_flag","pub_key","uuid"}`.
pub open spec fn handshake_event_json(
    uuid: Seq<char>,
    pub_key: Seq<char>,
    device_name: Seq<char>,
    battery: i32,
    device_type: Seq<char>,
    features: Option<Seq<Seq<char>>>,
    auto_accept: bool,
) -> Seq<char> {
    seq!['{'] + jbool("auto_accept"@, auto_accept) + seq![','] + jint("battery"@, battery as int) + seq![',']
        + jstr("device_name"@, device_name) + seq![','] + jstr("device_type"@, device_type) + seq![',']
        + json_string("feature_flag"@) + seq![':'] + features_json(features) + seq![','] + jstr("pub_key"@, pub_key)
        + seq![','] + jstr("uuid"@, uuid) + seq!['}']
}

/// The features of a handshake as texts.
pub open spec fn features_of(f: Option<Vec<String>>) -> Option<Seq<Seq<char>>> {
    match f {
        None => None,
        Some(v) => Some(v@.map_values(|s: String| s@)),
    }
}

/// What handling a handshake answers: the report, and the `ACCEPT` to send back to a paired
/// device.
pub struct HandshakeOutcome {
    pub data: String,
    pub accept: Option<Vec<u8>>,
}

fn push_features(out: &mut String, f: &Option<Vec<String>>)
    ensures
        final(out)@ == old(out)@ + features_json(features_of(*f)),
{
    match f {
        None => push_str(out, "null"),
        Some(v) => {
            let mut refs: Vec<&str> = Vec::new();
            let mut j: usize = 0;
            while j < v.len()
                invariant
                    j <= v.len(),
                    refs@.map_values(|s: &str| s@) == v@.take(j as int).map_values(|p: String| p@),
                decreases v.len() - j,
            {
                let ghost prev = refs@;
                let r = v[j].as_str();
                refs.push(r);
                assert(refs@ == prev.push(r));
                assert(refs@.map_values(|s: &str| s@) =~= prev.map_values(|s: &str| s@).push(v@[j as int]@));
                j = j + 1;
                assert(v@.take(j as int) =~= v@.take(j - 1).push(v@[j - 1]));
                assert(refs@.map_values(|s: &str| s@) =~= v@.take(j as int).map_values(|p: String| p@));
            }
            assert(v@.take(j as int) =~= v@);
            push_json_str_array(out, refs.as_slice());
        },
    }
}

/// The session key re-derived for a paired device from its locked public key.
pub open spec fn rederived_key(local_key: [u8; 32], locked_remote: Seq<char>) -> Option<Seq<u8>> {
    match base64_decoded(locked_remote) {
        Some(peer) => match p256_shared(local_key@, peer) {
            Some(s) => Some(hkdf_sha256_32(zero_salt(), s, encode_utf8(SESSION_KEY_INFO@))),
            None => None,
        },
        None => None,
    }
}

/// A handshake `hs` arrived from a peer whose last known address is `ip_from_ips`.
///
/// A handshake of this device itself is ignored (`None`). For a paired device the session
/// key is re-derived from the locked public key (when there is one and a local key), the
/// device becomes known at its address, and an `ACCEPT` is answered when the local id and
/// public key are known. The registry takes the identity without refreshing `last_seen`;
/// the address is the one the peer sent, else the last known one.
pub fn accept_handshake(
    hs: &ProtoHandshake,
    local_uuid: Option<&str>,
    local_pub: &str,
    local_battery: i32,
    local_type: &str,
    local_ip: &str,
    ip_from_ips: &str,
    crypto: &mut CryptoState,
    registry: &mut DeviceRegistry,
    discovery: &mut DiscoveryState,
) -> (r: Option<HandshakeOutcome>)
    requires
        old(registry).wf(),
    ensures
        final(registry).wf(),
        opt_text(local_uuid) == Some(hs.uuid@) ==> r is None && *final(crypto) == *old(crypto)
            && final(registry)@ == old(registry)@ && *final(discovery) == *old(discovery),
        final(crypto).local_key == old(crypto).local_key,
        final(crypto).local_pub_key_b64 == old(crypto).local_pub_key_b64,
        forall|o: Seq<char>| o != hs.uuid@ ==> #[trigger] last_value(final(crypto).device_keys@, o)
            == last_value(old(crypto).device_keys@, o),
        ({
            let locked = match last_value(old(crypto).device_keys@, hs.uuid@) {
                Some(e) => e.remote_pub_key@,
                None => Seq::<char>::empty(),
            };
            !(last_value(old(crypto).device_keys@, hs.uuid@) is Some && locked.len() > 0 && old(crypto).local_key is Some
                && rederived_key(old(crypto).local_key->0, locked) is Some) ==> *final(crypto) == *old(crypto)
        }),
        ({
            let paired = last_value(old(crypto).device_keys@, hs.uuid@) is Some;
            let locked = match last_value(old(crypto).device_keys@, hs.uuid@) {
                Some(e) => e.remote_pub_key@,
                None => Seq::<char>::empty(),
            };
            let ip = if hs.device_name@.len() > 0 { hs.device_name@ } else { ip_from_ips@ };
            let lu = match local_uuid {
                Some(u) => u@,
                None => Seq::<char>::empty(),
            };
            opt_text(local_uuid) != Some(hs.uuid@) ==> {
                &&& r matches Some(o) && o.data@ == handshake_event_json(hs.uuid@, locked, hs.device_name@, hs.battery,
                        hs.device_type@, features_of(hs.feature_flag), paired)
                &&& (r matches Some(o) && o.accept is Some) <==> (paired && lu.len() > 0 && local_pub@.len() > 0)
                &&& (r matches Some(o) ==> (o.accept matches Some(a) ==> a@ == crate::protocol::binary_codec::frame_bytes(
                        MessageType::ACCEPT, encode_utf8(accept_text(lu, local_pub@)))))
                &&& hs.uuid@.len() > 0 ==> replaced(old(registry)@, final(registry)@, hs.uuid@, Some(
                        merge_fields(base_device(old(registry)@, hs.uuid@, 0), Seq::empty(), ip, DEFAULT_TCP_PORT, hs.battery, hs.device_type@)))
                &&& paired ==> final(discovery).known().last().0@ == hs.uuid@ && final(discovery).known().last().1@ == ip
                &&& !paired ==> final(discovery).known() == old(discovery).known()
                &&& (paired && locked.len() > 0 && old(crypto).local_key is Some
                        && rederived_key(old(crypto).local_key->0, locked) is Some) ==>
                    (last_value(final(crypto).device_keys@, hs.uuid@) matches Some(e)
                        && e.remote_pub_key@ == locked
                        && (e.aes_key_bytes matches Some(k)
                        && Some(k@) == rederived_key(old(crypto).local_key->0, locked)
                        && e.aes_key_b64@ == base64_of(k@)))
            }
        }),
{
    let is_self = match local_uuid {
        Some(u) => str_eq(u, hs.uuid.as_str()),
        None => false,
    };
    if is_self {
        return None;
    }
    let uuid = hs.uuid.as_str();
    let paired = crypto.has_device_key(uuid);
    let locked = match crypto.remote_pub_key(uuid) {
        Some(p) => p,
        None => String::new(),
    };
    if paired && !locked.as_str().is_empty() {
        derive_device_key(crypto, uuid, locked.as_str());
    }
    let ip = if !hs.device_name.as_str().is_empty() {
        owned(hs.device_name.as_str())
    } else {
        owned(ip_from_ips)
    };
    registry.upsert_no_seen(uuid, "", ip.as_str(), DEFAULT_TCP_PORT, hs.battery, hs.device_type.as_str());
    let mut out = String::new();
    push_char(&mut out, '{');
    push_bool_field(&mut out, "auto_accept", paired);
    push_comma(&mut out);
    push_int_field(&mut out, "battery", hs.battery as i64);
    push_comma(&mut out);
    push_str_field(&mut out, "device_name", hs.device_name.as_str());
    push_comma(&mut out);
    push_str_field(&mut out, "device_type", hs.device_type.as_str());
    push_comma(&mut out);
    push_json_key(&mut out, "feature_flag");
    push_features(&mut out, &hs.feature_flag);
    push_comma(&mut out);
    push_str_field(&mut out, "pub_key", locked.as_str());
    push_comma(&mut out);
    push_str_field(&mut out, "uuid", uuid);
    push_char(&mut out, '}');
    proof {
        reveal_strlit("");
    }
    assert(out@ =~= handshake_event_json(hs.uuid@, locked@, hs.device_name@, hs.battery, hs.device_type@, features_of(hs.feature_flag), paired));
    let mut accept: Option<Vec<u8>> = None;
    if paired {
        discovery.add_known_device(uuid, ip.as_str());
        let lu = match local_uuid {
            Some(u) => owned(u),
            None => String::new(),
        };
        if !lu.as_str().is_empty() && !local_pub.is_empty() {
            accept = Some(encode_accept(lu.as_str(), local_pub, local_ip, local_battery, local_type));
        }
    }
    Some(HandshakeOutcome { data: out, accept })
}

/// Derives the session key of `uuid` from its long-term public key `peer_pub_b64` and the
/// local key, and stores both. Without a local key, or when no key can be derived, nothing
/// changes and `false` is answered.
pub fn derive_device_key(crypto: &mut CryptoState, uuid: &str, peer_pub_b64: &str) -> (r: bool)
    ensures
        final(crypto).local_key == old(crypto).local_key,
        final(crypto).local_pub_key_b64 == old(crypto).local_pub_key_b64,
        r == (old(crypto).local_key matches Some(k) && rederived_key(k, peer_pub_b64@) is Some),
        !r ==> *final(crypto) == *old(crypto),
        r ==> (last_value(final(crypto).device_keys@, uuid@) matches Some(e)
            && e.remote_pub_key@ == peer_pub_b64@
            && (e.aes_key_bytes matches Some(k)
            && Some(k@) == rederived_key(old(crypto).local_key->0, peer_pub_b64@)
            && e.aes_key_b64@ == base64_of(k@))),
        r ==> forall|o: Seq<char>| o != uuid@ ==> #[trigger] last_value(final(crypto).device_keys@, o)
            == last_value(old(crypto).device_keys@, o),
{
    let key = match crypto.local_key {
        Some(k) => k,
        None => return false,
    };
    match compute_shared_secret(&key, peer_pub_b64) {
        Ok(shared) => {
            let aes_key = derive_session_key(shared.as_slice());
            let b64 = b64_encode_bytes(&aes_key);
            crypto.insert_entry(
                owned(uuid),
                DeviceKeyEntry { remote_pub_key: owned(peer_pub_b64), aes_key_b64: b64, aes_key_bytes: Some(aes_key) },
            );
            true
        },
        Err(_) => false,
    }
}

// ===================== pairing =====================

/// The report of a `PAIRING_INIT`: `{"battery","device_type","ip","spake2_pub","uuid"}`.
pub open spec fn pairing_init_event_json(uuid: Seq<char>, spake2_pub: Seq<char>, ip: Seq<char>, battery: i32, device_type: Seq<char>) -> Seq<char> {
    seq!['{'] + jint("battery"@, battery as int) + seq![','] + jstr("device_type"@, device_type) + seq![',']
        + jstr("ip"@, ip) + seq![','] + jstr("spake2_pub"@, spake2_pub) + seq![','] + jstr("uuid"@, uuid) + seq!['}']
}

/// The report of a `PAIRING_INIT`.
pub fn pairing_init_event(f: &PairingInit) -> (r: String)
    ensures
        r@ == pairing_init_event_json(f.uuid@, f.spake2_pub@, f.ip@, f.battery, f.device_type@),
{
    let mut out = String::new();
    push_char(&mut out, '{');
    push_int_field(&mut out, "battery", f.battery as i64);
    push_comma(&mut out);
    push_str_field(&mut out, "device_type", f.device_type.as_str());
    push_comma(&mut out);
    push_str_field(&mut out, "ip", f.ip.as_str());
    push_comma(&mut out);
    push_str_field(&mut out, "spake2_pub", f.spake2_pub.as_str());
    push_comma(&mut out);
    push_str_field(&mut out, "uuid", f.uuid.as_str());
    push_char(&mut out, '}');
    assert(out@ =~= pairing_init_event_json(f.uuid@, f.spake2_pub@, f.ip@, f.battery, f.device_type@));
    out
}

/// The report of a `PAIRING_RESP`: `{"battery","device_type","ip","lt_pub","spake2_pub","uuid"}`.
pub open spec fn pairing_resp_event_json(uuid: Seq<char>, spake2_pub: Seq<char>, lt_pub: Seq<char>, ip: Seq<char>, battery: i32, device_type: Seq<char>) -> Seq<char> {
    seq!['{'] + jint("battery"@, battery as int) + seq![','] + jstr("device_type"@, device_type) + seq![',']
        + jstr("ip"@, ip) + seq![','] + jstr("lt_pub"@, lt_pub) + seq![','] + jstr("spake2_pub"@, spake2_pub)
        + seq![','] + jstr("uuid"@, uuid) + seq!['}']
}

/// What handling a `PAIRING_RESP` answers: the peer's long-term public key (when it could be
/// decrypted), the SPAKE2 session key, and the report.
pub struct PairingRespOutcome {
    pub lt_pub: Option<String>,
    pub session_key: Option<[u8; 32]>,
    pub data: String,
}

/// The long-term key text a `PAIRING_RESP` report carries.
pub open spec fn resp_lt_text(lt_pub: Option<String>) -> Seq<char> {
    match lt_pub {
        Some(l) => l@,
        None => Seq::<char>::empty(),
    }
}

/// `r` answers `f` after the exchange gave the shared secret `shared`: the session key is
/// HKDF-SHA256 of it (context `SESSION_KEY_INFO`), the peer's long-term key is what that key
/// decrypts from `f` (as lossy text; none when it does not decrypt), and the report carries it.
pub open spec fn resp_outcome_from_secret(f: PairingResp, shared: Seq<u8>, r: PairingRespOutcome) -> bool {
    let k = hkdf_sha256_32(zero_salt(), shared, encode_utf8(SESSION_KEY_INFO@));
    &&& r.session_key matches Some(sk) && sk@ == k
    &&& match decryption_of(f.enc_lt_pub@, k, Seq::<u8>::empty()) {
        Some(b) => r.lt_pub matches Some(l) && l@ == lossy_text(b),
        None => r.lt_pub is None,
    }
    &&& r.data@ == pairing_resp_event_json(f.uuid@, f.spake2_pub@, resp_lt_text(r.lt_pub), f.ip@, f.battery, f.device_type@)
}

/// `r` answers `f` when no exchange completed: no key, and the report with an empty key.
pub open spec fn resp_outcome_failed(f: PairingResp, r: PairingRespOutcome) -> bool {
    &&& r.lt_pub is None
    &&& r.session_key is None
    &&& r.data@ == pairing_resp_event_json(f.uuid@, f.spake2_pub@, Seq::<char>::empty(), f.ip@, f.battery, f.device_type@)
}

/// The report of a `PAIRING_RESP` with the long-term key text `lt`.
fn pairing_resp_report(f: &PairingResp, lt: &str) -> (r: String)
    ensures
        r@ == pairing_resp_event_json(f.uuid@, f.spake2_pub@, lt@, f.ip@, f.battery, f.device_type@),
{
    let mut out = String::new();
    push_char(&mut out, '{');
    push_int_field(&mut out, "battery", f.battery as i64);
    push_comma(&mut out);
    push_str_field(&mut out, "device_type", f.device_type.as_str());
    push_comma(&mut out);
    push_str_field(&mut out, "ip", f.ip.as_str());
    push_comma(&mut out);
    push_str_field(&mut out, "lt_pub", lt);
    push_comma(&mut out);
    push_str_field(&mut out, "spake2_pub", f.spake2_pub.as_str());
    push_comma(&mut out);
    push_str_field(&mut out, "uuid", f.uuid.as_str());
    push_char(&mut out, '}');
    assert(out@ =~= pairing_resp_event_json(f.uuid@, f.spake2_pub@, lt@, f.ip@, f.battery, f.device_type@));
    out
}

/// The rest of handling a `PAIRING_RESP` `f` once the SPAKE2 exchange gave the shared
/// secret `shared`: the session key is derived from it and decrypts the peer's long-term key.
pub fn finish_pairing_resp(f: &PairingResp, shared: &[u8]) -> (r: PairingRespOutcome)
    ensures
        resp_outcome_from_secret(*f, shared@, r),
{
    let k = derive_session_key(shared);
    let lt_pub = match decrypt(&k, f.enc_lt_pub.as_str()) {
        Ok(bytes) => Some(utf8_lossy(bytes.as_slice())),
        Err(_) => None,
    };
    let data = match &lt_pub {
        Some(l) => pairing_resp_report(f, l.as_str()),
        None => pairing_resp_report(f, ""),
    };
    proof {
        reveal_strlit("");
        assert(""@ =~= Seq::<char>::empty());
    }
    PairingRespOutcome { lt_pub, session_key: Some(k), data }
}

/// A `PAIRING_RESP` `f` arrived at the initiator holding the prover session `prover`: the
/// exchange is completed with the peer's SPAKE2 message, and the rest is
/// `finish_pairing_resp` on the shared secret (32 bytes). Without a session, or when the
/// exchange fails (exactly when the message is no base64, not 33 bytes, not from the verifier
/// side or not a point), no key is derived.
pub fn complete_pairing_resp(f: &PairingResp, prover: Option<Spake2Session>) -> (r: PairingRespOutcome)
    ensures
        prover is None ==> resp_outcome_failed(*f, r),
        prover matches Some(p) && !peer_message_accepted(base64_decoded(f.spake2_pub@), p.is_prover())
            ==> resp_outcome_failed(*f, r),
        prover matches Some(p) && peer_message_accepted(base64_decoded(f.spake2_pub@), p.is_prover())
            ==> exists|shared: Seq<u8>| shared.len() == 32 && #[trigger] resp_outcome_from_secret(*f, shared, r),
        resp_outcome_failed(*f, r) || exists|shared: Seq<u8>| shared.len() == 32 && #[trigger] resp_outcome_from_secret(*f, shared, r),
{
    match prover {
        Some(p) => match prover_complete(p, f.spake2_pub.as_str()) {
            Ok(shared) => {
                let r = finish_pairing_resp(f, shared.as_slice());
                assert(resp_outcome_from_secret(*f, shared@, r));
                return r;
            },
            Err(_) => {},
        },
        None => {},
    }
    let data = pairing_resp_report(f, "");
    proof {
        reveal_strlit("");
        assert(""@ =~= Seq::<char>::empty());
    }
    PairingRespOutcome { lt_pub: None, session_key: None, data }
}

// ===================== responder =====================

/// `frame` is the `PAIRING_RESP` of `local_uuid` (SPAKE2 message `spake2_pub`, address `ip`,
/// `battery`, `device_type`) whose key field is the encryption of `lt_pub` under `ks`, or
/// empty when that encryption failed; it fails only beyond the cipher's length limit.
pub open spec fn resp_carries_key(
    frame: Seq<u8>,
    local_uuid: Seq<char>,
    spake2_pub: Seq<char>,
    ip: Seq<char>,
    battery: i32,
    device_type: Seq<char>,
    ks: Seq<u8>,
    lt_pub: Seq<u8>,
) -> bool {
    exists|enc: Seq<char>| {
        &&& frame == crate::protocol::binary_codec::frame_bytes(MessageType::PAIRING_RESP,
                encode_utf8(#[trigger] pairing_resp_text(local_uuid, spake2_pub, enc, ip, battery, device_type)))
        &&& (enc.len() == 0 || is_encryption_of(enc, ks, lt_pub, Seq::<u8>::empty()))
        &&& (lt_pub.len() <= GCM_MAX_LEN ==> enc.len() > 0 && is_encryption_of(enc, ks, lt_pub, Seq::<u8>::empty()))
    }
}

/// What the pairing responder sends and keeps once the exchange succeeded.
pub struct ResponderReply {
    /// The SPAKE2 session key.
    pub session_key: [u8; 32],
    /// The `PAIRING_RESP` frame.
    pub frame: Vec<u8>,
}

/// The responder's reply once the SPAKE2 exchange gave `shared`: the session key is
/// HKDF-SHA256 of it (context `SESSION_KEY_INFO`), and the `PAIRING_RESP` carries the local
/// long-term public key `lt_pub` encrypted under it.
pub fn responder_reply(
    shared: &[u8],
    lt_pub: &str,
    local_uuid: &str,
    spake2_pub: &str,
    ip: &str,
    battery: i32,
    device_type: &str,
) -> (r: ResponderReply)
    ensures
        r.session_key@ == hkdf_sha256_32(zero_salt(), shared@, encode_utf8(SESSION_KEY_INFO@)),
        resp_carries_key(r.frame@, local_uuid@, spake2_pub@, ip@, battery, device_type@, r.session_key@, encode_utf8(lt_pub@)),
{
    let ks = derive_session_key(shared);
    let enc = match encrypt(&ks, lt_pub.as_bytes()) {
        Ok(e) => e,
        Err(_) => String::new(),
    };
    let frame = encode_pairing_resp(local_uuid, spake2_pub, enc.as_str(), ip, battery, device_type);
    assert(resp_carries_key(frame@, local_uuid@, spake2_pub@, ip@, battery, device_type@, ks@, encode_utf8(lt_pub@)));
    ResponderReply { session_key: ks, frame }
}

/// The responder answers a `PAIRING_INIT` whose SPAKE2 message is `peer_b64`, holding the
/// verifier session `verifier` (message `spake2_pub`): the exchange is completed and the rest
/// is `responder_reply` on the shared secret (32 bytes). `None` exactly when the exchange
/// fails: the message is no base64, not 33 bytes, not from the prover side or not a point.
pub fn answer_pairing_init(
    verifier: Spake2Session,
    peer_b64: &str,
    lt_pub: &str,
    local_uuid: &str,
    spake2_pub: &str,
    ip: &str,
    battery: i32,
    device_type: &str,
) -> (r: Option<ResponderReply>)
    ensures
        r is Some <==> peer_message_accepted(base64_decoded(peer_b64@), verifier.is_prover()),
        r matches Some(rep) ==> exists|shared: Seq<u8>| shared.len() == 32
            && rep.session_key@ == #[trigger] hkdf_sha256_32(zero_salt(), shared, encode_utf8(SESSION_KEY_INFO@))
            && resp_carries_key(rep.frame@, local_uuid@, spake2_pub@, ip@, battery, device_type@, rep.session_key@, encode_utf8(lt_pub@)),
{
    match verifier_complete(verifier, peer_b64) {
        Ok(shared) => {
            let rep = responder_reply(shared.as_slice(), lt_pub, local_uuid, spake2_pub, ip, battery, device_type);
            assert(rep.session_key@ == hkdf_sha256_32(zero_salt(), shared@, encode_utf8(SESSION_KEY_INFO@)));
            Some(rep)
        },
        Err(_) => None,
    }
}

/// The pairing result report without a key: `{"error","success","uuid"}`.
pub open spec fn outcome_event_json(uuid: Seq<char>, success: bool, error: Seq<char>) -> Seq<char> {
    seq!['{'] + jstr("error"@, error) + seq![','] + jbool("success"@, success) + seq![','] + jstr("uuid"@, uuid) + seq!['}']
}

/// The pairing result report `{"error","success","uuid"}` of `uuid`.
pub fn pairing_outcome_json(uuid: &str, success: bool, error: &str) -> (r: String)
    ensures
        r@ == outcome_event_json(uuid@, success, error@),
{
    let mut out = String::new();
    push_char(&mut out, '{');
    push_str_field(&mut out, "error", error);
    push_comma(&mut out);
    push_bool_field(&mut out, "success", success);
    push_comma(&mut out);
    push_str_field(&mut out, "uuid", uuid);
    push_char(&mut out, '}');
    assert(out@ =~= outcome_event_json(uuid@, success, error@));
    out
}

/// The address a TCP heartbeat is credited to: the device's known address, else the address
/// it came from.
pub fn heartbeat_address(known: &str, from_ip: &str) -> (r: String)
    ensures
        r@ == (if known@.len() > 0 { known@ } else { from_ip@ }),
{
    if known.is_empty() { owned(from_ip) } else { owned(known) }
}

/// The report of an `ACCEPT`: `{"lt_pub_key","success","uuid"}`.
pub open spec fn accept_event_json(uuid: Seq<char>, success: bool, lt_pub: Seq<char>) -> Seq<char> {
    seq!['{'] + jstr("lt_pub_key"@, lt_pub) + seq![','] + jbool("success"@, success) + seq![','] + jstr("uuid"@, uuid) + seq!['}']
}

/// The pairing result: `{"error","lt_pub_key","success","uuid"}`.
pub open spec fn result_event_json(uuid: Seq<char>, success: bool, lt_pub: Seq<char>, error: Seq<char>) -> Seq<char> {
    seq!['{'] + jstr("error"@, error) + seq![','] + jstr("lt_pub_key"@, lt_pub) + seq![','] + jbool("success"@, success)
        + seq![','] + jstr("uuid"@, uuid) + seq!['}']
}

/// What handling an `ACCEPT` answers.
pub struct AcceptOutcome {
    /// The pairing completed: the peer's long-term key decrypted and stored.
    pub success: bool,
    /// A pairing was in progress (a SPAKE2 session key was held).
    pub pairing_flow: bool,
    /// The `ACCEPT` report.
    pub accept_data: String,
    /// The pairing result report, when a pairing was in progress.
    pub result_data: Option<String>,
    /// The `ACK` to send back.
    pub ack: Vec<u8>,
}

/// An `ACCEPT` from `uuid` carrying `enc_lt` (its long-term public key under the SPAKE2
/// session key) arrived while `session_key` was held.
///
/// With a session key this is the end of a pairing: when the key decrypts `enc_lt`, the
/// peer's key and the session key (base64 and bytes) are stored and the peer becomes a known
/// device with no address yet. Without one (a paired device reconnecting) nothing changes and
/// the stored public key is reported. An `ACK` is answered in every case.
pub fn accept_pairing(
    uuid: &str,
    enc_lt: &str,
    session_key: Option<[u8; 32]>,
    crypto: &mut CryptoState,
    discovery: &mut DiscoveryState,
) -> (r: AcceptOutcome)
    ensures
        r.pairing_flow == session_key is Some,
        r.success == (session_key matches Some(k) && decryption_of(enc_lt@, k@, Seq::<u8>::empty()) is Some),
        r.ack@ == crate::protocol::binary_codec::frame_bytes(MessageType::ACK, encode_utf8(uuid@)),
        ({
            let lt = if r.success {
                lossy_text(decryption_of(enc_lt@, session_key->0@, Seq::<u8>::empty())->0)
            } else if session_key is Some {
                Seq::<char>::empty()
            } else {
                match last_value(old(crypto).device_keys@, uuid@) {
                    Some(e) => e.remote_pub_key@,
                    None => Seq::<char>::empty(),
                }
            };
            &&& r.accept_data@ == accept_event_json(uuid@, r.success, lt)
            &&& r.result_data matches Some(d) ==> d@ == result_event_json(uuid@, r.success, lt,
                    if r.success { "ok"@ } else { "spake2_failed"@ })
            &&& r.result_data is Some == r.pairing_flow
            &&& r.success ==> (last_value(final(crypto).device_keys@, uuid@) matches Some(e)
                    && e.remote_pub_key@ == lt
                    && e.aes_key_b64@ == base64_of(session_key->0@)
                    && e.aes_key_bytes == session_key)
            &&& r.success ==> final(discovery).known().last().0@ == uuid@ && final(discovery).known().last().1@.len() == 0
            &&& !r.success ==> final(crypto).device_keys@ == old(crypto).device_keys@ && final(discovery).known() == old(discovery).known()
            &&& forall|o: Seq<char>| o != uuid@ ==> #[trigger] last_value(final(crypto).device_keys@, o) == last_value(old(crypto).device_keys@, o)
        }),
{
    let mut success = false;
    let mut lt = String::new();
    match session_key {
        Some(k) => {
            match decrypt(&k, enc_lt) {
                Ok(bytes) => {
                    let remote = utf8_lossy(bytes.as_slice());
                    lt = owned(remote.as_str());
                    let b64 = b64_encode_bytes(&k);
                    crypto.insert_entry(
                        owned(uuid),
                        DeviceKeyEntry { remote_pub_key: remote, aes_key_b64: b64, aes_key_bytes: Some(k) },
                    );
                    discovery.add_known_device(uuid, "");
                    proof {
                        reveal_strlit("");
                    }
                    success = true;
                },
                Err(_) => {},
            }
        },
        None => {
            match crypto.remote_pub_key(uuid) {
                Some(p) => {
                    lt = p;
                },
                None => {},
            }
        },
    }
    let mut acc = String::new();
    push_char(&mut acc, '{');
    push_str_field(&mut acc, "lt_pub_key", lt.as_str());
    push_comma(&mut acc);
    push_bool_field(&mut acc, "success", success);
    push_comma(&mut acc);
    push_str_field(&mut acc, "uuid", uuid);
    push_char(&mut acc, '}');
    assert(acc@ =~= accept_event_json(uuid@, success, lt@));
    let result_data = if session_key.is_some() {
        let err = if success { "ok" } else { "spake2_failed" };
        let mut res = String::new();
        push_char(&mut res, '{');
        push_str_field(&mut res, "error", err);
        push_comma(&mut res);
        push_str_field(&mut res, "lt_pub_key", lt.as_str());
        push_comma(&mut res);
        push_bool_field(&mut res, "success", success);
        push_comma(&mut res);
        push_str_field(&mut res, "uuid", uuid);
        push_char(&mut res, '}');
        assert(res@ =~= result_event_json(uuid@, success, lt@, err@));
        Some(res)
    } else {
        None
    };
    AcceptOutcome { success, pairing_flow: session_key.is_some(), accept_data: acc, result_data, ack: encode_ack(uuid) }
}

/// The reports of a `REJECT` from `uuid`: `{"uuid"}` and the result
/// `{"error":"rejected","success":false,"uuid"}`.
pub fn reject_events(uuid: &str) -> (r: (String, String))
    ensures
        r.0@ == seq!['{'] + jstr("uuid"@, uuid@) + seq!['}'],
        r.1@ == seq!['{'] + jstr("error"@, "rejected"@) + seq![','] + jbool("success"@, false) + seq![','] + jstr("uuid"@, uuid@) + seq!['}'],
{
    let mut a = String::new();
    push_char(&mut a, '{');
    push_str_field(&mut a, "uuid", uuid);
    push_char(&mut a, '}');
    let mut b = String::new();
    push_char(&mut b, '{');
    push_str_field(&mut b, "error", "rejected");
    push_comma(&mut b);
    push_bool_field(&mut b, "success", false);
    push_comma(&mut b);
    push_str_field(&mut b, "uuid", uuid);
    push_char(&mut b, '}');
    assert(a@ =~= seq!['{'] + jstr("uuid"@, uuid@) + seq!['}']);
    assert(b@ =~= seq!['{'] + jstr("error"@, "rejected"@) + seq![','] + jbool("success"@, false) + seq![','] + jstr("uuid"@, uuid@) + seq!['}']);
    (a, b)
}

/// What the pairing initiator sends and keeps once the exchange succeeded.
pub struct InitiatorFinish {
    /// The `ACCEPT` frame: local id and the local public key encrypted under the SPAKE2 key
    /// (empty when that encryption failed).
    pub accept: Vec<u8>,
    /// Whether the data key fell back to the SPAKE2 key (no ECDH key could be derived).
    pub fallback: bool,
}

/// `accept` is the `ACCEPT` frame of `local_uuid` whose key field is the encryption of
/// `local_pub` under `ks`, or empty when that encryption failed; it fails only beyond the
/// cipher's length limit.
pub open spec fn accept_carries_key(accept: Seq<u8>, local_uuid: Seq<char>, ks: Seq<u8>, local_pub: Seq<u8>) -> bool {
    exists|enc: Seq<char>| {
        &&& accept == crate::protocol::binary_codec::frame_bytes(MessageType::ACCEPT, encode_utf8(#[trigger] accept_text(local_uuid, enc)))
        &&& (enc.len() == 0 || is_encryption_of(enc, ks, local_pub, Seq::<u8>::empty()))
        &&& (local_pub.len() <= GCM_MAX_LEN ==> enc.len() > 0 && is_encryption_of(enc, ks, local_pub, Seq::<u8>::empty()))
    }
}

/// The pairing initiator got the SPAKE2 session key `ks` and the peer's long-term public key
/// `peer_lt` for `target`. The local public key is encrypted under `ks` for the `ACCEPT`;
/// the data key is the one derived by ECDH from the local key and `peer_lt` (as on
/// reconnection), else `ks` itself; it is stored for `target` with `peer_lt`.
pub fn finish_pairing_initiator(
    crypto: &mut CryptoState,
    target: &str,
    ks: [u8; 32],
    peer_lt: &str,
    local_uuid: &str,
    local_ip: &str,
    battery: i32,
    device_type: &str,
) -> (r: InitiatorFinish)
    ensures
        final(crypto).local_key == old(crypto).local_key,
        final(crypto).local_pub_key_b64 == old(crypto).local_pub_key_b64,
        ({
            let derived = match old(crypto).local_key {
                Some(k) => rederived_key(k, peer_lt@),
                None => None,
            };
            let local_pub = match old(crypto).local_pub_key_b64 {
                Some(p) => p@,
                None => Seq::<char>::empty(),
            };
            &&& r.fallback == derived is None
            &&& last_value(final(crypto).device_keys@, target@) matches Some(e)
            &&& e.remote_pub_key@ == peer_lt@
            &&& e.aes_key_b64@ == base64_of(match derived { Some(d) => d, None => ks@ })
            &&& match derived {
                Some(d) => e.aes_key_bytes matches Some(b) && b@ == d,
                None => e.aes_key_bytes is None,
            }
            &&& accept_carries_key(r.accept@, local_uuid@, ks@, encode_utf8(local_pub))
        }),
        forall|o: Seq<char>| o != target@ ==> #[trigger] last_value(final(crypto).device_keys@, o) == last_value(old(crypto).device_keys@, o),
{
    let local_pub = match &crypto.local_pub_key_b64 {
        Some(p) => owned(p.as_str()),
        None => String::new(),
    };
    let enc_lt = match encrypt(&ks, local_pub.as_str().as_bytes()) {
        Ok(e) => e,
        Err(_) => String::new(),
    };
    let derived: Option<[u8; 32]> = match crypto.local_key {
        Some(k) => match compute_shared_secret(&k, peer_lt) {
            Ok(shared) => Some(derive_session_key(shared.as_slice())),
            Err(_) => None,
        },
        None => None,
    };
    let (b64, bytes) = match derived {
        Some(k) => (b64_encode_bytes(&k), Some(k)),
        None => (b64_encode_bytes(&ks), None),
    };
    crypto.insert_entry(owned(target), DeviceKeyEntry { remote_pub_key: owned(peer_lt), aes_key_b64: b64, aes_key_bytes: bytes });
    let accept = encode_accept(local_uuid, enc_lt.as_str(), local_ip, battery, device_type);
    assert(local_pub@ == match old(crypto).local_pub_key_b64 {
        Some(p) => p@,
        None => Seq::<char>::empty(),
    });
    assert(accept_carries_key(accept@, local_uuid@, ks@, encode_utf8(local_pub@)));
    InitiatorFinish { accept, fallback: derived.is_none() }
}

// ===================== DATA =====================

/// Where a decrypted DATA message goes.
#[derive(Debug, Clone, Copy)]
pub enum DataRoute {
    /// To the state merge engine (media or island state).
    StateMerge { is_media: bool },
    /// To the platform's data callback with this message type.
    Callback(&'static str),
}

/// Why a DATA frame was not opened.
#[derive(Debug, Clone, Copy, PartialEq, Eq, Structural)]
pub enum DataError {
    /// Not UTF-8, or fewer than five fields.
    Malformed,
    /// No usable session key for the sender.
    NoKey,
    /// The payload does not decrypt.
    DecryptFailed,
}

/// A decrypted DATA message.
pub struct DataEvent {
    pub uuid: String,
    pub header: &'static str,
    pub plaintext: String,
    pub route: DataRoute,
}

/// The callback message type of a DATA frame type.
pub open spec fn callback_type_spec(t: u8) -> Seq<char> {
    if t == MessageType::NOTIFICATION {
        "NOTIFICATION"@
    } else if t == MessageType::MEDIA_SESSION {
        "MEDIAPLAY"@
    } else if t == MessageType::PACKAGE_INFO {
        "ICON_REQUEST"@
    } else if t == MessageType::SYNC_SEARCH_APP {
        "APP_LIST_REQUEST"@
    } else if t == MessageType::SYNC_SEARCH_APP_RESPONSE {
        "APP_LIST_RESPONSE"@
    } else if t == MessageType::MEDIA_SESSION_CONTROL {
        "MEDIA_CONTROL"@
    } else if t == MessageType::FTP {
        "FTP"@
    } else if t == MessageType::CLIPBOARD {
        "CLIPBOARD"@
    } else if t == MessageType::DEVICE_STATUS {
        "STATUS"@
    } else if t == MessageType::RELAY_APPLICATION {
        "APP_LAUNCH"@
    } else if t == MessageType::FEATURE_STATUS {
        "SUPERISLAND"@
    } else {
        "UNKNOWN"@
    }
}

/// Law: the callback type of a DATA frame type is the name of its `DATA_*` header without the
/// `DATA_` prefix (`UNKNOWN` for a type without one).
pub proof fn law_callback_type_names_header(t: u8)
    ensures
        callback_type_spec(t) == type_data_header(t).skip(5),
{
    reveal_strlit("DATA_NOTIFICATION");
    reveal_strlit("DATA_MEDIAPLAY");
    reveal_strlit("DATA_SUPERISLAND");
    reveal_strlit("DATA_CLIPBOARD");
    reveal_strlit("DATA_ICON_REQUEST");
    reveal_strlit("DATA_APP_LIST_REQUEST");
    reveal_strlit("DATA_APP_LIST_RESPONSE");
    reveal_strlit("DATA_MEDIA_CONTROL");
    reveal_strlit("DATA_FTP");
    reveal_strlit("DATA_STATUS");
    reveal_strlit("DATA_APP_LAUNCH");
    reveal_strlit("DATA_UNKNOWN");
    reveal_strlit("NOTIFICATION");
    reveal_strlit("MEDIAPLAY");
    reveal_strlit("SUPERISLAND");
    reveal_strlit("CLIPBOARD");
    reveal_strlit("ICON_REQUEST");
    reveal_strlit("APP_LIST_REQUEST");
    reveal_strlit("APP_LIST_RESPONSE");
    reveal_strlit("MEDIA_CONTROL");
    reveal_strlit("FTP");
    reveal_strlit("STATUS");
    reveal_strlit("APP_LAUNCH");
    reveal_strlit("UNKNOWN");
    assert(callback_type_spec(t) =~= type_data_header(t).skip(5));
}

/// Law: two DATA frame types that have `DATA_*` headers reach the platform as different
/// callback types (a request is never reported as its response).
pub proof fn law_callback_types_distinct(t1: u8, t2: u8)
    requires
        type_data_header(t1) != "DATA_UNKNOWN"@,
        type_data_header(t2) != "DATA_UNKNOWN"@,
        t1 != t2,
    ensures
        callback_type_spec(t1) != callback_type_spec(t2),
{
    law_callback_type_names_header(t1);
    law_callback_type_names_header(t2);
    crate::protocol::binary_codec::law_data_type_header_roundtrip(t1);
    crate::protocol::binary_codec::law_data_type_header_roundtrip(t2);
    let h1 = type_data_header(t1);
    let h2 = type_data_header(t2);
    reveal_strlit("DATA_NOTIFICATION");
    reveal_strlit("DATA_MEDIAPLAY");
    reveal_strlit("DATA_SUPERISLAND");
    reveal_strlit("DATA_CLIPBOARD");
    reveal_strlit("DATA_ICON_REQUEST");
    reveal_strlit("DATA_APP_LIST_REQUEST");
    reveal_strlit("DATA_APP_LIST_RESPONSE");
    reveal_strlit("DATA_MEDIA_CONTROL");
    reveal_strlit("DATA_FTP");
    reveal_strlit("DATA_STATUS");
    reveal_strlit("DATA_APP_LAUNCH");
    if h1.skip(5) == h2.skip(5) {
        assert(h1.take(5) =~= h2.take(5));
        assert(h1 =~= h1.take(5) + h1.skip(5));
        assert(h2 =~= h2.take(5) + h2.skip(5));
    }
}

/// The callback message type of a DATA frame type.
pub fn callback_type(t: u8) -> (r: &'static str)
    ensures
        r@ == callback_type_spec(t),
{
    if t == MessageType::NOTIFICATION {
        "NOTIFICATION"
    } else if t == MessageType::MEDIA_SESSION {
        "MEDIAPLAY"
    } else if t == MessageType::PACKAGE_INFO {
        "ICON_REQUEST"
    } else if t == MessageType::SYNC_SEARCH_APP {
        "APP_LIST_REQUEST"
    } else if t == MessageType::SYNC_SEARCH_APP_RESPONSE {
        "APP_LIST_RESPONSE"
    } else if t == MessageType::MEDIA_SESSION_CONTROL {
        "MEDIA_CONTROL"
    } else if t == MessageType::FTP {
        "FTP"
    } else if t == MessageType::CLIPBOARD {
        "CLIPBOARD"
    } else if t == MessageType::DEVICE_STATUS {
        "STATUS"
    } else if t == MessageType::RELAY_APPLICATION {
        "APP_LAUNCH"
    } else if t == MessageType::FEATURE_STATUS {
        "SUPERISLAND"
    } else {
        "UNKNOWN"
    }
}

/// The associated data that binds DATA encryption to the local `major.minor`.
pub open spec fn data_aad_spec() -> Seq<u8> {
    encode_utf8(match major_minor_spec(crate::protocol::version::CORE_VERSION@) {
        Some((a, b)) => aad_text(a, b),
        None => aad_text(0, 0),
    })
}

/// Opens a DATA frame of type `msg_type`: decodes `header:uuid:version:pub_key:encrypted`,
/// finds the sender's session key, and decrypts (bound to the local `major.minor`).
/// Island and media states go to the state merge engine, the rest to the data callback.
pub fn open_data_frame(crypto: &CryptoState, msg_type: u8, payload: &[u8]) -> (r: Result<DataEvent, DataError>)
    ensures
        ({
            let fields = if valid_utf8(payload@) { data_fields_spec(decode_utf8(payload@)) } else { None };
            match fields {
                None => r == Err::<DataEvent, DataError>(DataError::Malformed),
                Some((h, u, v, k, e)) => match last_value(crypto.device_keys@, u) {
                    None => r == Err::<DataEvent, DataError>(DataError::NoKey),
                    Some(entry) => match session_key_of(entry) {
                        None => r == Err::<DataEvent, DataError>(DataError::NoKey),
                        Some(key) => match decryption_of(e, key, data_aad_spec()) {
                            None => r == Err::<DataEvent, DataError>(DataError::DecryptFailed),
                            Some(plain) => r matches Ok(ev)
                                && ev.uuid@ == u
                                && ev.plaintext@ == lossy_text(plain)
                                && (valid_utf8(plain) ==> ev.plaintext@ == decode_utf8(plain))
                                && ev.header@ == type_data_header(msg_type)
                                && (if msg_type == MessageType::MEDIA_SESSION || msg_type == MessageType::FEATURE_STATUS {
                                    ev.route == DataRoute::StateMerge { is_media: msg_type == MessageType::MEDIA_SESSION }
                                } else {
                                    ev.route matches DataRoute::Callback(c) && c@ == callback_type_spec(msg_type)
                                }),
                        },
                    },
                },
            }
        }),
{
    let f = match decode_data_payload(payload) {
        Some(f) => f,
        None => return Err(DataError::Malformed),
    };
    let key = match crypto.get_aes_key(f.uuid.as_str()) {
        Some(k) => k,
        None => return Err(DataError::NoKey),
    };
    let aad = data_aad();
    let plain = match decrypt_with_aad(&key, f.encrypted.as_str(), aad.as_slice()) {
        Ok(p) => p,
        Err(_) => return Err(DataError::DecryptFailed),
    };
    let plaintext = utf8_lossy(plain.as_slice());
    let header = type_to_data_header(msg_type);
    let route = if msg_type == MessageType::MEDIA_SESSION || msg_type == MessageType::FEATURE_STATUS {
        DataRoute::StateMerge { is_media: msg_type == MessageType::MEDIA_SESSION }
    } else {
        DataRoute::Callback(callback_type(msg_type))
    };
    Ok(DataEvent { uuid: f.uuid, header, plaintext, route })
}

} // verus!
