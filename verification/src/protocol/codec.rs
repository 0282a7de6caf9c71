//! Encoders and decoders of the pairing, control, handshake, heartbeat, DATA and discovery
//! messages.
use vstd::prelude::*;
use vstd::string::*;
use vstd::utf8::*;
use super::binary_codec::{
    data_header_to_type, data_header_type, data_payload_text, encode_control_frame,
    encode_data_frame, encode_handshake_frame, encode_heartbeat_frame, encode_pairing_frame,
    frame_bytes, handshake_json, heartbeat_json,
};
use super::header::{supported_features, FeatureFlag, MessageType};
use super::version::CORE_VERSION;
use crate::text::{
    chars_of, dec_digits, dec_int, find_char, first_index, is_digit, is_ws, lemma_dec_int_no_char,
    lemma_first_index, lemma_parse_plus_dec, lemma_parse_signed_dec, lemma_parse_unsigned_dec,
    lemma_split_join, join_seq, owned, parse_i32, parse_signed, parse_u16, parse_unsigned,
    push_char, push_chars, push_int, push_str, split, split_once_seq, split_seq, string_of,
    sub_chars, trim_chars, trim_seq, utf8_text,
};

verus! {

/// Default TCP port of the core.
pub const DEFAULT_TCP_PORT: u16 = 23333;

/// Battery field of pairing messages: non-negative values carry a trailing `+`.
pub open spec fn pairing_battery(b: i32) -> Seq<char> {
    if b >= 0 {
        dec_int(b as int) + seq!['+']
    } else {
        dec_int(b as int)
    }
}

fn push_pairing_battery(s: &mut String, b: i32)
    ensures
        final(s)@ == old(s)@ + pairing_battery(b),
{
    push_int(s, b as i64);
    if b >= 0 {
        let ghost mid = s@;
        push_char(s, '+');
        assert(mid.push('+') == mid + seq!['+']);
    }
}

/// Text of a `PAIRING_INIT`: `uuid:version:spake2_pub:ip:battery:device_type`.
pub open spec fn pairing_init_text(uuid: Seq<char>, spake2_pub: Seq<char>, ip: Seq<char>, battery: i32, device_type: Seq<char>) -> Seq<char> {
    uuid + seq![':'] + CORE_VERSION@ + seq![':'] + spake2_pub + seq![':'] + ip + seq![':']
        + pairing_battery(battery) + seq![':'] + device_type
}

/// Text of a `PAIRING_RESP`: `uuid:version:spake2_pub:lt_pub:ip:battery:device_type`.
pub open spec fn pairing_resp_text(
    uuid: Seq<char>,
    spake2_pub: Seq<char>,
    lt_pub: Seq<char>,
    ip: Seq<char>,
    battery: i32,
    device_type: Seq<char>,
) -> Seq<char> {
    uuid + seq![':'] + CORE_VERSION@ + seq![':'] + spake2_pub + seq![':'] + lt_pub + seq![':'] + ip
        + seq![':'] + pairing_battery(battery) + seq![':'] + device_type
}

/// Encodes a `PAIRING_INIT` frame.
pub fn encode_pairing_init(uuid: &str, spake2_pub: &str, ip: &str, battery: i32, device_type: &str) -> (r: Vec<u8>)
    ensures
        r@ == frame_bytes(MessageType::PAIRING_INIT, encode_utf8(pairing_init_text(uuid@, spake2_pub@, ip@, battery, device_type@))),
{
    let mut s = String::new();
    push_str(&mut s, uuid);
    push_char(&mut s, ':');
    push_str(&mut s, CORE_VERSION);
    push_char(&mut s, ':');
    push_str(&mut s, spake2_pub);
    push_char(&mut s, ':');
    push_str(&mut s, ip);
    push_char(&mut s, ':');
    push_pairing_battery(&mut s, battery);
    push_char(&mut s, ':');
    push_str(&mut s, device_type);
    assert(s@ =~= pairing_init_text(uuid@, spake2_pub@, ip@, battery, device_type@));
    encode_pairing_frame(MessageType::PAIRING_INIT, s.as_str())
}

/// Encodes a `PAIRING_RESP` frame.
pub fn encode_pairing_resp(
    uuid: &str,
    spake2_pub: &str,
    lt_pub: &str,
    ip: &str,
    battery: i32,
    device_type: &str,
) -> (r: Vec<u8>)
    ensures
        r@ == frame_bytes(MessageType::PAIRING_RESP, encode_utf8(pairing_resp_text(uuid@, spake2_pub@, lt_pub@, ip@, battery, device_type@))),
{
    let mut s = String::new();
    push_str(&mut s, uuid);
    push_char(&mut s, ':');
    push_str(&mut s, CORE_VERSION);
    push_char(&mut s, ':');
    push_str(&mut s, spake2_pub);
    push_char(&mut s, ':');
    push_str(&mut s, lt_pub);
    push_char(&mut s, ':');
    push_str(&mut s, ip);
    push_char(&mut s, ':');
    push_pairing_battery(&mut s, battery);
    push_char(&mut s, ':');
    push_str(&mut s, device_type);
    assert(s@ =~= pairing_resp_text(uuid@, spake2_pub@, lt_pub@, ip@, battery, device_type@));
    encode_pairing_frame(MessageType::PAIRING_RESP, s.as_str())
}

/// Text of an `ACCEPT`: `uuid:version:lt_pub`.
pub open spec fn accept_text(uuid: Seq<char>, lt_pub: Seq<char>) -> Seq<char> {
    uuid + seq![':'] + CORE_VERSION@ + seq![':'] + lt_pub
}

/// Encodes an `ACCEPT` frame; address, battery and device type are not sent.
pub fn encode_accept(uuid: &str, lt_pub_key: &str, _ip: &str, _battery: i32, _device_type: &str) -> (r: Vec<u8>)
    ensures
        r@ == frame_bytes(MessageType::ACCEPT, encode_utf8(accept_text(uuid@, lt_pub_key@))),
{
    let mut s = String::new();
    push_str(&mut s, uuid);
    push_char(&mut s, ':');
    push_str(&mut s, CORE_VERSION);
    push_char(&mut s, ':');
    push_str(&mut s, lt_pub_key);
    assert(s@ =~= accept_text(uuid@, lt_pub_key@));
    encode_pairing_frame(MessageType::ACCEPT, s.as_str())
}

/// Reason codes carried in the second field of a `REJECT`.
pub struct RejectReason;

impl RejectReason {
    /// The two cores have different `major.minor` versions.
    pub const VERSION_MISMATCH: &'static str = "version_mismatch";
    /// The user refused or cancelled.
    pub const REJECTED: &'static str = "rejected";
}

/// Encodes a `REJECT` frame carrying only the uuid.
pub fn encode_reject(uuid: &str) -> (r: Vec<u8>)
    ensures
        r@ == frame_bytes(MessageType::REJECT, encode_utf8(uuid@)),
{
    encode_control_frame(MessageType::REJECT, uuid)
}

/// Encodes a `REJECT` frame `uuid:reason`.
pub fn encode_reject_with_reason(uuid: &str, reason: &str) -> (r: Vec<u8>)
    ensures
        r@ == frame_bytes(MessageType::REJECT, encode_utf8(uuid@ + seq![':'] + reason@)),
{
    let mut s = String::new();
    push_str(&mut s, uuid);
    push_char(&mut s, ':');
    push_str(&mut s, reason);
    assert(s@ =~= uuid@ + seq![':'] + reason@);
    encode_control_frame(MessageType::REJECT, s.as_str())
}

/// What a `REJECT` payload decodes to: the trimmed uuid and reason (`rejected` when absent);
/// none when the payload is not UTF-8 or the uuid is empty.
pub open spec fn reject_payload_spec(payload: Seq<u8>) -> Option<(Seq<char>, Seq<char>)> {
    if !valid_utf8(payload) {
        None
    } else {
        let text = trim_seq(decode_utf8(payload));
        let (u, r) = match split_once_seq(text, ':') {
            Some((a, b)) => (trim_seq(a), trim_seq(b)),
            None => (text, Seq::<char>::empty()),
        };
        if u.len() == 0 {
            None
        } else {
            Some((u, if r.len() == 0 { "rejected"@ } else { r }))
        }
    }
}

/// Decodes a `REJECT` payload into `(uuid, reason)`.
pub fn decode_reject_payload(payload: &[u8]) -> (r: Option<(String, String)>)
    ensures
        match (r, reject_payload_spec(payload@)) {
            (Some((u, why)), Some((su, swhy))) => u@ == su && why@ == swhy,
            (None, None) => true,
            _ => false,
        },
{
    let text = match utf8_text(payload) {
        Some(t) => t,
        None => return None,
    };
    let tv = chars_of(text.as_str());
    let t = trim_chars(tv.as_slice());
    let (u, why) = match find_char(t.as_slice(), ':') {
        Some(i) => {
            proof {
                lemma_first_index(t@, ':');
            }
            let a = sub_chars(t.as_slice(), 0, i);
            let b = sub_chars(t.as_slice(), i + 1, t.len());
            (trim_chars(a.as_slice()), trim_chars(b.as_slice()))
        },
        None => (t, Vec::new()),
    };
    if u.len() == 0 {
        return None;
    }
    let uuid = string_of(u.as_slice());
    let reason = if why.len() == 0 {
        owned(RejectReason::REJECTED)
    } else {
        string_of(why.as_slice())
    };
    Some((uuid, reason))
}

/// Encodes an `ACK` frame.
pub fn encode_ack(uuid: &str) -> (r: Vec<u8>)
    ensures
        r@ == frame_bytes(MessageType::ACK, encode_utf8(uuid@)),
{
    encode_control_frame(MessageType::ACK, uuid)
}

/// Encodes a `HANDSHAKE` frame: the long-term public key is no longer sent; the device name
/// field carries the local address; all supported features are announced.
pub fn encode_handshake(uuid: &str, ip: &str, battery: i32, device_type: &str) -> (r: Vec<u8>)
    ensures
        r@ == frame_bytes(MessageType::HANDSHAKE, encode_utf8(handshake_json(uuid@, Seq::<char>::empty(), ip@, device_type@, battery, supported_features()))),
{
    proof {
        reveal_strlit("");
    }
    let flags = FeatureFlag::supported();
    assert(flags@.map_values(|s: &str| s@) =~= supported_features());
    let empty: &str = "";
    assert(empty@ =~= Seq::<char>::empty());
    let fs = flags.as_slice();
    assert(fs@ == flags@);
    encode_handshake_frame(uuid, empty, ip, device_type, battery, fs)
}

/// Encodes a TCP heartbeat frame.
pub fn encode_heartbeat_tcp(uuid: &str, name: &str, port: u16, battery: i32, device_type: &str) -> (r: Vec<u8>)
    ensures
        r@ == frame_bytes(MessageType::HEARTBEAT, encode_utf8(heartbeat_json(uuid@, name@, port, battery, device_type@))),
{
    encode_heartbeat_frame(uuid, name, port, battery, device_type)
}

/// Encodes a DATA frame; the header decides the message type and is kept as given
/// (icon request and response share a type and differ only by header).
pub fn encode_data_message(header: &str, local_uuid: &str, local_pub_key: &str, encrypted_payload: &str) -> (r: Vec<u8>)
    ensures
        r@ == frame_bytes(data_header_type(header@), encode_utf8(data_payload_text(header@, local_uuid@, local_pub_key@, encrypted_payload@))),
{
    let msg_type = data_header_to_type(header);
    encode_data_frame(header, msg_type, local_uuid, local_pub_key, encrypted_payload)
}

/// Battery field of discovery messages: non-negative values carry a leading `+`.
pub open spec fn discovery_battery(b: i32) -> Seq<char> {
    if b >= 0 {
        seq!['+'] + dec_int(b as int)
    } else {
        dec_int(b as int)
    }
}

/// Text of a discovery message: `uuid:name_b64:port:battery:device_type`.
pub open spec fn discovery_text(uuid: Seq<char>, name_b64: Seq<char>, port: u16, battery: i32, device_type: Seq<char>) -> Seq<char> {
    join_seq(seq![uuid, name_b64, dec_int(port as int), discovery_battery(battery), device_type], ':')
}

/// Encodes a discovery request.
pub fn encode_discovery_request(uuid: &str, name_b64: &str, port: u16, battery: i32, device_type: &str) -> (r: String)
    ensures
        r@ == discovery_text(uuid@, name_b64@, port, battery, device_type@),
{
    let mut s = String::new();
    push_str(&mut s, uuid);
    push_char(&mut s, ':');
    push_str(&mut s, name_b64);
    push_char(&mut s, ':');
    push_int(&mut s, port as i64);
    push_char(&mut s, ':');
    let ghost before_battery = s@;
    if battery >= 0 {
        push_char(&mut s, '+');
    }
    push_int(&mut s, battery as i64);
    assert(s@ == before_battery + discovery_battery(battery));
    push_char(&mut s, ':');
    push_str(&mut s, device_type);
    proof {
        reveal_with_fuel(join_seq, 6);
        let parts = seq![uuid@, name_b64@, dec_int(port as int), discovery_battery(battery), device_type@];
        assert(parts.drop_last().drop_last().drop_last().drop_last() =~= seq![uuid@]);
        assert(parts.drop_last().drop_last().drop_last() =~= seq![uuid@, name_b64@]);
        assert(parts.drop_last().drop_last() =~= seq![uuid@, name_b64@, dec_int(port as int)]);
        assert(parts.drop_last() =~= seq![uuid@, name_b64@, dec_int(port as int), discovery_battery(battery)]);
        assert(s@ =~= join_seq(parts, ':'));
    }
    s
}

/// Encodes a discovery response (same layout as the request).
pub fn encode_discovery_response(uuid: &str, name_b64: &str, port: u16, battery: i32, device_type: &str) -> (r: String)
    ensures
        r@ == discovery_text(uuid@, name_b64@, port, battery, device_type@),
{
    encode_discovery_request(uuid, name_b64, port, battery, device_type)
}

/// Decoded discovery message: uuid, name (base64), port, battery, device type.
pub open spec fn discovery_spec(line: Seq<char>) -> Option<(Seq<char>, Seq<char>, u16, i32, Seq<char>)> {
    let parts = split_seq(line, ':');
    if parts.len() < 5 {
        None
    } else {
        match parse_unsigned(parts[2], u16::MAX as nat) {
            None => None,
            Some(p) => Some((
                parts[0],
                parts[1],
                p as u16,
                match parse_signed(parts[3], i32::MAX as nat) {
                    Some(b) => b as i32,
                    None => 0i32,
                },
                parts[4],
            )),
        }
    }
}

/// Decodes a discovery message; fewer than five fields or a bad port give none, a bad battery
/// reads as 0.
pub fn decode_discovery_request(line: &str) -> (r: Option<(String, String, u16, i32, String)>)
    ensures
        match (r, discovery_spec(line@)) {
            (Some((u, n, p, b, d)), Some((su, sn, sp, sb, sd))) => u@ == su && n@ == sn && p == sp && b == sb && d@ == sd,
            (None, None) => true,
            _ => false,
        },
{
    let parts = split(line, ':');
    if parts.len() < 5 {
        return None;
    }
    let port = match parse_u16(parts[2].as_str()) {
        Some(p) => p,
        None => return None,
    };
    let battery = match parse_i32(parts[3].as_str()) {
        Some(b) => b,
        None => 0,
    };
    let uuid = owned(parts[0].as_str());
    let name = owned(parts[1].as_str());
    let dt = owned(parts[4].as_str());
    Some((uuid, name, port, battery, dt))
}

/// Law: a discovery message decodes to what was encoded, when the text fields hold no `:`.
pub proof fn law_discovery_roundtrip(uuid: Seq<char>, name_b64: Seq<char>, port: u16, battery: i32, device_type: Seq<char>)
    requires
        !uuid.contains(':'),
        !name_b64.contains(':'),
        !device_type.contains(':'),
    ensures
        discovery_spec(discovery_text(uuid, name_b64, port, battery, device_type))
            == Some((uuid, name_b64, port, battery, device_type)),
{
    let parts = seq![uuid, name_b64, dec_int(port as int), discovery_battery(battery), device_type];
    lemma_dec_int_no_char(port as int, ':');
    lemma_dec_int_no_char(battery as int, ':');
    assert(!discovery_battery(battery).contains(':')) by {
        if battery >= 0 && discovery_battery(battery).contains(':') {
            let k = choose|k: int| 0 <= k < discovery_battery(battery).len() && discovery_battery(battery)[k] == ':';
            if k > 0 {
                assert(discovery_battery(battery)[k] == dec_int(battery as int)[k - 1]);
            }
        }
    }
    assert forall|i: int| 0 <= i < parts.len() implies !(#[trigger] parts[i]).contains(':') by {
        if i == 2 {
        }
    }
    lemma_split_join(parts, ':');
    lemma_parse_unsigned_dec(port as nat, u16::MAX as nat);
    assert(dec_int(port as int) == dec_digits(port as nat));
    if battery >= 0 {
        lemma_parse_plus_dec(battery as nat, i32::MAX as nat);
        assert(discovery_battery(battery) == seq!['+'] + dec_digits(battery as nat));
    } else {
        lemma_parse_signed_dec(battery as int, i32::MAX as nat);
    }
}

} // verus!
