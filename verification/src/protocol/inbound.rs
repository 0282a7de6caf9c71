//! Decoding of incoming frames: which handler a frame type goes to, and the text payloads of
//! the pairing, control and DATA frames (the inverses of the encoders in `codec`).
use vstd::prelude::*;
use vstd::string::*;
use vstd::utf8::*;
use super::binary_codec::{data_header_type, data_payload_text, law_data_type_header_roundtrip, type_data_header};
use super::codec::{accept_text, pairing_battery, pairing_init_text, pairing_resp_text, reject_payload_spec};
use super::header::MessageType;
use super::version::CORE_VERSION;
use crate::text::{
    chars_of, dec_digits, dec_int, find_char, first_index, join_seq, lemma_dec_int_no_char, lemma_first_index,
    lemma_parse_signed_dec, lemma_split_join, lemma_trim_end_plus, owned, parse_i32, parse_signed, split,
    split_once_seq, split_seq, string_of, sub_chars, trim_chars, trim_end_char, trim_end_matches_char, trim_seq,
    utf8_text, is_trimmed, is_ws, lemma_trim_all_ws, lemma_trim_keeps_first, lemma_trim_trimmed,
};

verus! {

/// The handler of a frame type.
#[derive(Debug, Clone, Copy, PartialEq, Eq, Structural)]
pub enum FrameKind {
    Handshake,
    PairingInit,
    PairingResp,
    Accept,
    Reject,
    Heartbeat,
    Ack,
    /// A DATA frame (types 10 to 200).
    Data,
    Unknown,
}

/// The handler of frame type `t`.
pub open spec fn frame_kind_spec(t: u8) -> FrameKind {
    if t == MessageType::HANDSHAKE {
        FrameKind::Handshake
    } else if t == MessageType::PAIRING_INIT {
        FrameKind::PairingInit
    } else if t == MessageType::PAIRING_RESP {
        FrameKind::PairingResp
    } else if t == MessageType::ACCEPT {
        FrameKind::Accept
    } else if t == MessageType::REJECT {
        FrameKind::Reject
    } else if t == MessageType::HEARTBEAT {
        FrameKind::Heartbeat
    } else if t == MessageType::ACK {
        FrameKind::Ack
    } else if 10 <= t <= 200 {
        FrameKind::Data
    } else {
        FrameKind::Unknown
    }
}

/// The handler of frame type `msg_type`.
pub fn classify_frame(msg_type: u8) -> (r: FrameKind)
    ensures
        r == frame_kind_spec(msg_type),
{
    if msg_type == MessageType::HANDSHAKE {
        FrameKind::Handshake
    } else if msg_type == MessageType::PAIRING_INIT {
        FrameKind::PairingInit
    } else if msg_type == MessageType::PAIRING_RESP {
        FrameKind::PairingResp
    } else if msg_type == MessageType::ACCEPT {
        FrameKind::Accept
    } else if msg_type == MessageType::REJECT {
        FrameKind::Reject
    } else if msg_type == MessageType::HEARTBEAT {
        FrameKind::Heartbeat
    } else if msg_type == MessageType::ACK {
        FrameKind::Ack
    } else if 10 <= msg_type && msg_type <= 200 {
        FrameKind::Data
    } else {
        FrameKind::Unknown
    }
}

/// The battery of a pairing field: the number before any trailing `+`, 0 when it does not
/// parse.
pub open spec fn pairing_battery_value(s: Seq<char>) -> i32 {
    match parse_signed(trim_end_char(s, '+'), i32::MAX as nat) {
        Some(v) => v as i32,
        None => 0,
    }
}

fn battery_field(s: &str) -> (r: i32)
    ensures
        r == pairing_battery_value(s@),
{
    let t = trim_end_matches_char(s, '+');
    match parse_i32(t.as_str()) {
        Some(v) => v,
        None => 0,
    }
}

/// A decoded `PAIRING_INIT`.
pub struct PairingInit {
    pub uuid: String,
    pub version: String,
    pub spake2_pub: String,
    pub ip: String,
    pub battery: i32,
    pub device_type: String,
}

/// A decoded `PAIRING_RESP`.
pub struct PairingResp {
    pub uuid: String,
    pub version: String,
    pub spake2_pub: String,
    pub enc_lt_pub: String,
    pub ip: String,
    pub battery: i32,
    pub device_type: String,
}

/// What a `PAIRING_INIT` text `uuid:version:spake2_pub:ip:battery:device_type` holds; none
/// with fewer than six fields.
pub open spec fn pairing_init_spec(text: Seq<char>) -> Option<(Seq<char>, Seq<char>, Seq<char>, Seq<char>, i32, Seq<char>)> {
    let p = split_seq(text, ':');
    if p.len() < 6 {
        None
    } else {
        Some((p[0], p[1], p[2], p[3], pairing_battery_value(p[4]), p[5]))
    }
}

/// What a `PAIRING_RESP` text `uuid:version:spake2_pub:enc_lt_pub:ip:battery:device_type`
/// holds; none with fewer than seven fields.
pub open spec fn pairing_resp_spec(text: Seq<char>) -> Option<(Seq<char>, Seq<char>, Seq<char>, Seq<char>, Seq<char>, i32, Seq<char>)> {
    let p = split_seq(text, ':');
    if p.len() < 7 {
        None
    } else {
        Some((p[0], p[1], p[2], p[3], p[4], pairing_battery_value(p[5]), p[6]))
    }
}

/// Decodes a `PAIRING_INIT` payload; none when it is not UTF-8 or has fewer than six
/// fields.
pub fn decode_pairing_init(payload: &[u8]) -> (r: Option<PairingInit>)
    ensures
        match r {
            None => !valid_utf8(payload@) || pairing_init_spec(decode_utf8(payload@)) is None,
            Some(f) => valid_utf8(payload@) && pairing_init_spec(decode_utf8(payload@))
                == Some((f.uuid@, f.version@, f.spake2_pub@, f.ip@, f.battery, f.device_type@)),
        },
{
    let text = match utf8_text(payload) {
        Some(t) => t,
        None => return None,
    };
    let parts = split(text.as_str(), ':');
    if parts.len() < 6 {
        return None;
    }
    let battery = battery_field(parts[4].as_str());
    Some(PairingInit {
        uuid: parts[0].clone(),
        version: parts[1].clone(),
        spake2_pub: parts[2].clone(),
        ip: parts[3].clone(),
        battery,
        device_type: parts[5].clone(),
    })
}

/// Decodes a `PAIRING_RESP` payload; none when it is not UTF-8 or has fewer than seven
/// fields.
pub fn decode_pairing_resp(payload: &[u8]) -> (r: Option<PairingResp>)
    ensures
        match r {
            None => !valid_utf8(payload@) || pairing_resp_spec(decode_utf8(payload@)) is None,
            Some(f) => valid_utf8(payload@) && pairing_resp_spec(decode_utf8(payload@))
                == Some((f.uuid@, f.version@, f.spake2_pub@, f.enc_lt_pub@, f.ip@, f.battery, f.device_type@)),
        },
{
    let text = match utf8_text(payload) {
        Some(t) => t,
        None => return None,
    };
    let parts = split(text.as_str(), ':');
    if parts.len() < 7 {
        return None;
    }
    let battery = battery_field(parts[5].as_str());
    Some(PairingResp {
        uuid: parts[0].clone(),
        version: parts[1].clone(),
        spake2_pub: parts[2].clone(),
        enc_lt_pub: parts[3].clone(),
        ip: parts[4].clone(),
        battery,
        device_type: parts[6].clone(),
    })
}

/// What an `ACCEPT` text holds once trimmed: the uuid before the first `:`, then the version
/// before the next `:`, then the rest (empty fields when the separators are missing).
pub open spec fn accept_spec(text: Seq<char>) -> (Seq<char>, Seq<char>, Seq<char>) {
    let t = trim_seq(text);
    match split_once_seq(t, ':') {
        None => (t, Seq::empty(), Seq::empty()),
        Some((u, rest)) => match split_once_seq(rest, ':') {
            None => (u, rest, Seq::empty()),
            Some((v, lt)) => (u, v, lt),
        },
    }
}

/// Splits `s` at its first `c`.
pub fn cut_once(s: &[char], c: char) -> (r: Option<(Vec<char>, Vec<char>)>)
    ensures
        match (r, split_once_seq(s@, c)) {
            (None, None) => true,
            (Some((a, b)), Some((x, y))) => a@ == x && b@ == y,
            _ => false,
        },
{
    match find_char(s, c) {
        Some(i) => {
            proof {
                lemma_first_index(s@, c);
            }
            assert(i < s.len());
            Some((sub_chars(s, 0, i), sub_chars(s, i + 1, s.len())))
        },
        None => None,
    }
}

/// Decodes an `ACCEPT` payload `uuid:version:enc_lt_pub` into its three fields; none when it
/// is not UTF-8.
pub fn decode_accept(payload: &[u8]) -> (r: Option<(String, String, String)>)
    ensures
        match r {
            None => !valid_utf8(payload@),
            Some((u, v, lt)) => valid_utf8(payload@) && accept_spec(decode_utf8(payload@)) == (u@, v@, lt@),
        },
{
    let text = match utf8_text(payload) {
        Some(t) => t,
        None => return None,
    };
    let cs = chars_of(text.as_str());
    let t = trim_chars(cs.as_slice());
    match cut_once(t.as_slice(), ':') {
        None => Some((string_of(t.as_slice()), String::new(), String::new())),
        Some((u, rest)) => match cut_once(rest.as_slice(), ':') {
            None => Some((string_of(u.as_slice()), string_of(rest.as_slice()), String::new())),
            Some((v, lt)) => Some((string_of(u.as_slice()), string_of(v.as_slice()), string_of(lt.as_slice()))),
        },
    }
}

/// Decodes a `REJECT` or other control payload: the trimmed uuid; none when not UTF-8.
pub fn decode_control(payload: &[u8]) -> (r: Option<String>)
    ensures
        match r {
            None => !valid_utf8(payload@),
            Some(u) => valid_utf8(payload@) && u@ == trim_seq(decode_utf8(payload@)),
        },
{
    let text = match utf8_text(payload) {
        Some(t) => t,
        None => return None,
    };
    let cs = chars_of(text.as_str());
    let t = trim_chars(cs.as_slice());
    Some(string_of(t.as_slice()))
}

/// A decoded DATA payload.
pub struct DataFields {
    pub header: String,
    pub uuid: String,
    pub version: String,
    pub pub_key: String,
    pub encrypted: String,
}

/// What a DATA text `header:uuid:version:pub_key:encrypted` holds: the first four fields
/// and the rest; none with fewer than five fields.
pub open spec fn data_fields_spec(text: Seq<char>) -> Option<(Seq<char>, Seq<char>, Seq<char>, Seq<char>, Seq<char>)> {
    match split_once_seq(text, ':') {
        None => None,
        Some((h, r1)) => match split_once_seq(r1, ':') {
            None => None,
            Some((u, r2)) => match split_once_seq(r2, ':') {
                None => None,
                Some((v, r3)) => match split_once_seq(r3, ':') {
                    None => None,
                    Some((k, e)) => Some((h, u, v, k, e)),
                },
            },
        },
    }
}

/// Decodes a DATA payload; none when it is not UTF-8 or has fewer than five fields.
pub fn decode_data_payload(payload: &[u8]) -> (r: Option<DataFields>)
    ensures
        match r {
            None => !valid_utf8(payload@) || data_fields_spec(decode_utf8(payload@)) is None,
            Some(f) => valid_utf8(payload@) && data_fields_spec(decode_utf8(payload@))
                == Some((f.header@, f.uuid@, f.version@, f.pub_key@, f.encrypted@)),
        },
{
    let text = match utf8_text(payload) {
        Some(t) => t,
        None => return None,
    };
    let cs = chars_of(text.as_str());
    let (h, r1) = match cut_once(cs.as_slice(), ':') {
        Some(p) => p,
        None => return None,
    };
    let (u, r2) = match cut_once(r1.as_slice(), ':') {
        Some(p) => p,
        None => return None,
    };
    let (v, r3) = match cut_once(r2.as_slice(), ':') {
        Some(p) => p,
        None => return None,
    };
    let (k, e) = match cut_once(r3.as_slice(), ':') {
        Some(p) => p,
        None => return None,
    };
    Some(DataFields {
        header: string_of(h.as_slice()),
        uuid: string_of(u.as_slice()),
        version: string_of(v.as_slice()),
        pub_key: string_of(k.as_slice()),
        encrypted: string_of(e.as_slice()),
    })
}

// ===================== round trips =====================

/// The pairing battery field parses back to the battery.
proof fn lemma_pairing_battery(b: i32)
    ensures
        pairing_battery_value(pairing_battery(b)) == b,
        !pairing_battery(b).contains(':'),
{
    lemma_dec_int_no_char(b as int, '+');
    lemma_dec_int_no_char(b as int, ':');
    let d = dec_int(b as int);
    if d.len() > 0 {
        assert(d.contains(d.last()));
    }
    lemma_trim_end_plus(d, '+');
    lemma_parse_signed_dec(b as int, i32::MAX as nat);
    if b >= 0 {
        assert forall|k: int| 0 <= k < pairing_battery(b).len() implies pairing_battery(b)[k] != ':' by {
            if k < d.len() {
                assert(pairing_battery(b)[k] == d[k]);
                assert(d.contains(d[k]));
            }
        }
    }
}

/// The version string holds no `:`.
proof fn lemma_version_no_colon()
    ensures
        !CORE_VERSION@.contains(':'),
{
    reveal_strlit("0.2.0");
    assert(CORE_VERSION@ =~= "0.2.0"@);
}

/// Law: a `PAIRING_INIT` decodes to what was encoded (with the local version), when the text
/// fields hold no `:`.
pub proof fn law_pairing_init_roundtrip(uuid: Seq<char>, spake2_pub: Seq<char>, ip: Seq<char>, battery: i32, device_type: Seq<char>)
    requires
        !uuid.contains(':'),
        !spake2_pub.contains(':'),
        !ip.contains(':'),
        !device_type.contains(':'),
    ensures
        pairing_init_spec(pairing_init_text(uuid, spake2_pub, ip, battery, device_type))
            == Some((uuid, CORE_VERSION@, spake2_pub, ip, battery, device_type)),
{
    let parts = seq![uuid, CORE_VERSION@, spake2_pub, ip, pairing_battery(battery), device_type];
    lemma_pairing_battery(battery);
    lemma_version_no_colon();
    assert forall|i: int| 0 <= i < parts.len() implies !(#[trigger] parts[i]).contains(':') by {}
    lemma_split_join(parts, ':');
    assert(join_seq(parts, ':') =~= pairing_init_text(uuid, spake2_pub, ip, battery, device_type)) by {
        reveal_with_fuel(join_seq, 7);
        assert(parts.drop_last().drop_last().drop_last().drop_last().drop_last() =~= seq![uuid]);
        assert(parts.drop_last().drop_last().drop_last().drop_last() =~= seq![uuid, CORE_VERSION@]);
        assert(parts.drop_last().drop_last().drop_last() =~= seq![uuid, CORE_VERSION@, spake2_pub]);
        assert(parts.drop_last().drop_last() =~= seq![uuid, CORE_VERSION@, spake2_pub, ip]);
        assert(parts.drop_last() =~= seq![uuid, CORE_VERSION@, spake2_pub, ip, pairing_battery(battery)]);
    }
}

/// Law: a `PAIRING_RESP` decodes to what was encoded (with the local version), when the text
/// fields hold no `:`.
pub proof fn law_pairing_resp_roundtrip(
    uuid: Seq<char>,
    spake2_pub: Seq<char>,
    lt_pub: Seq<char>,
    ip: Seq<char>,
    battery: i32,
    device_type: Seq<char>,
)
    requires
        !uuid.contains(':'),
        !spake2_pub.contains(':'),
        !lt_pub.contains(':'),
        !ip.contains(':'),
        !device_type.contains(':'),
    ensures
        pairing_resp_spec(pairing_resp_text(uuid, spake2_pub, lt_pub, ip, battery, device_type))
            == Some((uuid, CORE_VERSION@, spake2_pub, lt_pub, ip, battery, device_type)),
{
    let parts = seq![uuid, CORE_VERSION@, spake2_pub, lt_pub, ip, pairing_battery(battery), device_type];
    lemma_pairing_battery(battery);
    lemma_version_no_colon();
    assert forall|i: int| 0 <= i < parts.len() implies !(#[trigger] parts[i]).contains(':') by {}
    lemma_split_join(parts, ':');
    assert(join_seq(parts, ':') =~= pairing_resp_text(uuid, spake2_pub, lt_pub, ip, battery, device_type)) by {
        reveal_with_fuel(join_seq, 8);
        assert(parts.drop_last().drop_last().drop_last().drop_last().drop_last().drop_last() =~= seq![uuid]);
        assert(parts.drop_last().drop_last().drop_last().drop_last().drop_last() =~= seq![uuid, CORE_VERSION@]);
        assert(parts.drop_last().drop_last().drop_last().drop_last() =~= seq![uuid, CORE_VERSION@, spake2_pub]);
        assert(parts.drop_last().drop_last().drop_last() =~= seq![uuid, CORE_VERSION@, spake2_pub, lt_pub]);
        assert(parts.drop_last().drop_last() =~= seq![uuid, CORE_VERSION@, spake2_pub, lt_pub, ip]);
        assert(parts.drop_last() =~= seq![uuid, CORE_VERSION@, spake2_pub, lt_pub, ip, pairing_battery(battery)]);
    }
}

/// Law: a DATA payload decodes to what was encoded (with the local version), when the
/// header, uuid and public key hold no `:` (the encrypted part may hold anything).
pub proof fn law_data_roundtrip(header: Seq<char>, uuid: Seq<char>, pub_key: Seq<char>, enc: Seq<char>)
    requires
        !header.contains(':'),
        !uuid.contains(':'),
        !pub_key.contains(':'),
    ensures
        data_fields_spec(data_payload_text(header, uuid, pub_key, enc)) == Some((header, uuid, CORE_VERSION@, pub_key, enc)),
{
    lemma_version_no_colon();
    let t = data_payload_text(header, uuid, pub_key, enc);
    lemma_split_once_prefix(header, uuid + seq![':'] + CORE_VERSION@ + seq![':'] + pub_key + seq![':'] + enc);
    assert(t =~= header + seq![':'] + (uuid + seq![':'] + CORE_VERSION@ + seq![':'] + pub_key + seq![':'] + enc));
    let r1 = uuid + seq![':'] + CORE_VERSION@ + seq![':'] + pub_key + seq![':'] + enc;
    assert(r1 =~= uuid + seq![':'] + (CORE_VERSION@ + seq![':'] + pub_key + seq![':'] + enc));
    lemma_split_once_prefix(uuid, CORE_VERSION@ + seq![':'] + pub_key + seq![':'] + enc);
    let r2 = CORE_VERSION@ + seq![':'] + pub_key + seq![':'] + enc;
    assert(r2 =~= CORE_VERSION@ + seq![':'] + (pub_key + seq![':'] + enc));
    lemma_split_once_prefix(CORE_VERSION@, pub_key + seq![':'] + enc);
    lemma_split_once_prefix(pub_key, enc);
}

/// Law: the payload of `encode_reject_with_reason(uuid, reason)` decodes to the uuid and the
/// reason, when both are non-empty, neither starts or ends with whitespace, and
/// the uuid holds no `:`.
pub proof fn law_reject_with_reason_roundtrip(uuid: Seq<char>, reason: Seq<char>)
    requires
        uuid.len() > 0,
        reason.len() > 0,
        is_trimmed(uuid),
        is_trimmed(reason),
        !uuid.contains(':'),
    ensures
        reject_payload_spec(encode_utf8(uuid + seq![':'] + reason)) == Some((uuid, reason)),
{
    let t = uuid + seq![':'] + reason;
    encode_utf8_valid_utf8(t);
    encode_utf8_decode_utf8(t);
    assert(t[0] == uuid[0]);
    assert(t.last() == reason.last());
    lemma_trim_trimmed(t);
    lemma_split_once_prefix(uuid, reason);
    lemma_trim_trimmed(uuid);
    lemma_trim_trimmed(reason);
}

/// Law: the payload of `encode_reject(uuid)` (the older form, no reason) decodes to the uuid
/// and the reason `rejected`, when the uuid is non-empty, has no leading or trailing
/// whitespace and holds no `:`.
pub proof fn law_reject_roundtrip(uuid: Seq<char>)
    requires
        uuid.len() > 0,
        is_trimmed(uuid),
        !uuid.contains(':'),
    ensures
        reject_payload_spec(encode_utf8(uuid)) == Some((uuid, "rejected"@)),
{
    encode_utf8_valid_utf8(uuid);
    encode_utf8_decode_utf8(uuid);
    lemma_trim_trimmed(uuid);
    lemma_first_index(uuid, ':');
}

/// Law: a `REJECT` payload that is empty, all whitespace, or starts with `:` (no uuid before
/// the separator) is refused.
pub proof fn law_reject_without_uuid_refused(s: Seq<char>)
    requires
        s.len() == 0 || (forall|i: int| 0 <= i < s.len() ==> is_ws(#[trigger] s[i])) || s[0] == ':',
    ensures
        reject_payload_spec(encode_utf8(s)) is None,
{
    encode_utf8_valid_utf8(s);
    encode_utf8_decode_utf8(s);
    let text = trim_seq(s);
    if s.len() > 0 && s[0] == ':' {
        lemma_trim_keeps_first(s);
        lemma_first_index(text, ':');
        assert(text.contains(':')) by {
            assert(text[0] == ':');
        }
        match first_index(text, ':') {
            Some(i) => {
                if i > 0 {
                    assert(text[0] != ':');
                }
                assert(text.take(0).len() == 0);
                lemma_trim_all_ws(text.take(0));
            },
            None => {},
        }
    } else {
        lemma_trim_all_ws(s);
        lemma_first_index(text, ':');
        lemma_trim_all_ws(text);
    }
}

/// The `DATA_*` headers the protocol writes: the header of each message type that has one,
/// and the icon response (which travels with the icon request's type).
pub open spec fn is_protocol_data_header(h: Seq<char>) -> bool {
    (exists|t: u8| #[trigger] type_data_header(t) == h && h != "DATA_UNKNOWN"@) || h == "DATA_ICON_RESPONSE"@
}

/// Law: every `DATA_*` header the protocol writes travels in a frame whose type the receiver
/// handles as data.
pub proof fn law_data_headers_travel_as_data(h: Seq<char>)
    requires
        is_protocol_data_header(h),
    ensures
        frame_kind_spec(data_header_type(h)) == FrameKind::Data,
{
    if exists|t: u8| #[trigger] type_data_header(t) == h && h != "DATA_UNKNOWN"@ {
        let t = choose|t: u8| #[trigger] type_data_header(t) == h && h != "DATA_UNKNOWN"@;
        law_data_type_header_roundtrip(t);
    } else {
        reveal_strlit("DATA_NOTIFICATION");
        reveal_strlit("DATA_MEDIAPLAY");
        reveal_strlit("DATA_SUPERISLAND");
        reveal_strlit("DATA_CLIPBOARD");
        reveal_strlit("DATA_ICON_REQUEST");
        reveal_strlit("DATA_ICON_RESPONSE");
        assert("DATA_ICON_RESPONSE"@.len() != "DATA_NOTIFICATION"@.len());
        assert("DATA_ICON_RESPONSE"@.len() != "DATA_MEDIAPLAY"@.len());
        assert("DATA_ICON_RESPONSE"@.len() != "DATA_SUPERISLAND"@.len());
        assert("DATA_ICON_RESPONSE"@.len() != "DATA_CLIPBOARD"@.len());
    }
}

/// Law: a response travels with the type of its request when the protocol gives the exchange
/// one type: the icon response is read as the icon request's type, which the receiver handles
/// as data.
pub proof fn law_icon_response_shares_request_type()
    ensures
        data_header_type("DATA_ICON_RESPONSE"@) == data_header_type("DATA_ICON_REQUEST"@),
        data_header_type("DATA_ICON_RESPONSE"@) == MessageType::PACKAGE_INFO,
{
    reveal_strlit("DATA_NOTIFICATION");
    reveal_strlit("DATA_MEDIAPLAY");
    reveal_strlit("DATA_SUPERISLAND");
    reveal_strlit("DATA_CLIPBOARD");
    reveal_strlit("DATA_ICON_REQUEST");
    reveal_strlit("DATA_ICON_RESPONSE");
    assert("DATA_ICON_RESPONSE"@.len() != "DATA_NOTIFICATION"@.len());
    assert("DATA_ICON_RESPONSE"@.len() != "DATA_MEDIAPLAY"@.len());
    assert("DATA_ICON_RESPONSE"@.len() != "DATA_SUPERISLAND"@.len());
    assert("DATA_ICON_RESPONSE"@.len() != "DATA_CLIPBOARD"@.len());
    assert("DATA_ICON_REQUEST"@[5] != "DATA_NOTIFICATION"@[5]);
    assert("DATA_ICON_REQUEST"@.len() != "DATA_MEDIAPLAY"@.len());
    assert("DATA_ICON_REQUEST"@.len() != "DATA_SUPERISLAND"@.len());
    assert("DATA_ICON_REQUEST"@.len() != "DATA_CLIPBOARD"@.len());
}

/// Splitting `a:b` at its first `:`, when `a` holds none, gives `a` and `b`.
proof fn lemma_split_once_prefix(a: Seq<char>, b: Seq<char>)
    requires
        !a.contains(':'),
    ensures
        split_once_seq(a + seq![':'] + b, ':') == Some((a, b)),
{
    let s = a + seq![':'] + b;
    assert(s[a.len() as int] == ':');
    assert forall|j: int| 0 <= j < a.len() implies s[j] != ':' by {
        assert(s[j] == a[j]);
        if a[j] == ':' {
            assert(a.contains(':'));
        }
    }
    lemma_first_index(s, ':');
    let i = a.len() as int;
    assert(0 <= i < s.len() && s[i] == ':' && forall|j: int| 0 <= j < i ==> s[j] != ':');
    match first_index(s, ':') {
        Some(k) => {
            if k < i {
                assert(s[k] != ':');
            } else if k > i {
                assert(s[i] != ':');
            }
        },
        None => {
            assert(s.contains(':'));
        },
    }
    assert(s.take(i) =~= a);
    assert(s.skip(i + 1) =~= b);
}

} // verus!
