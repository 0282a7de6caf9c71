//! Decoding of the JSON payloads of `HANDSHAKE` and `HEARTBEAT` frames.
use vstd::prelude::*;
use vstd::string::*;
use vstd::utf8::*;
use super::binary_codec::{HeartbeatPayload, ProtoHandshake};
use crate::json_model::{JsonLeaf, LeafView, get_member, items_view, json_array_of, json_object_of, parse_array, parse_object, vmember};
use crate::text::{parse_i32, parse_signed, parse_u16, parse_unsigned, utf8_text};

verus! {

/// A required string member.
pub open spec fn req_str(v: Seq<(Seq<char>, LeafView)>, k: Seq<char>) -> Option<Seq<char>> {
    match vmember(v, k) {
        Some(LeafView::Str(s)) => Some(s),
        _ => None,
    }
}

/// A required `i32` member.
pub open spec fn req_i32(v: Seq<(Seq<char>, LeafView)>, k: Seq<char>) -> Option<i32> {
    match vmember(v, k) {
        Some(LeafView::Raw(t)) => match parse_signed(t, i32::MAX as nat) {
            Some(n) => Some(n as i32),
            None => None,
        },
        _ => None,
    }
}

/// A required `u16` member.
pub open spec fn req_u16(v: Seq<(Seq<char>, LeafView)>, k: Seq<char>) -> Option<u16> {
    match vmember(v, k) {
        Some(LeafView::Raw(t)) => match parse_unsigned(t, u16::MAX as nat) {
            Some(n) => Some(n as u16),
            None => None,
        },
        _ => None,
    }
}

/// An optional string member: `Some(None)` when missing or null, `None` when it is
/// something else than a string.
pub open spec fn opt_str(v: Seq<(Seq<char>, LeafView)>, k: Seq<char>) -> Option<Option<Seq<char>>> {
    match vmember(v, k) {
        None => Some(None),
        Some(LeafView::Null) => Some(None),
        Some(LeafView::Str(s)) => Some(Some(s)),
        _ => None,
    }
}

/// Whether every item is a string.
pub open spec fn all_strings(items: Seq<LeafView>) -> bool {
    forall|i: int| 0 <= i < items.len() ==> (#[trigger] items[i]) is Str
}

/// An optional list of strings: `Some(None)` when missing or null, `None` when it is not a
/// list of strings.
pub open spec fn opt_str_list(v: Seq<(Seq<char>, LeafView)>, k: Seq<char>) -> Option<Option<Seq<Seq<char>>>> {
    match vmember(v, k) {
        None => Some(None),
        Some(LeafView::Null) => Some(None),
        Some(LeafView::Raw(t)) => match json_array_of(t) {
            Some(items) => if all_strings(items) {
                Some(Some(items.map_values(|l: LeafView| l->Str_0)))
            } else {
                None
            },
            None => None,
        },
        _ => None,
    }
}

/// The members of a JSON payload (UTF-8 text holding an object).
pub open spec fn payload_object(payload: Seq<u8>) -> Option<Seq<(Seq<char>, LeafView)>> {
    if valid_utf8(payload) {
        json_object_of(decode_utf8(payload))
    } else {
        None
    }
}

/// The handshake a payload announces, as text: id, public key, device name, device type,
/// battery, feature flags and core version. `None` when a required member is missing or of
/// the wrong kind.
pub open spec fn handshake_spec(payload: Seq<u8>) -> Option<(Seq<char>, Seq<char>, Seq<char>, Seq<char>, i32, Option<Seq<Seq<char>>>, Option<Seq<char>>)> {
    match payload_object(payload) {
        None => None,
        Some(v) => match (req_str(v, "uuid"@), req_str(v, "pubKey"@), req_str(v, "deviceName"@), req_str(v, "deviceType"@),
            req_i32(v, "battery"@), opt_str_list(v, "featureFlag"@), opt_str(v, "coreVersion"@)) {
            (Some(u), Some(p), Some(n), Some(t), Some(b), Some(f), Some(c)) => Some((u, p, n, t, b, f, c)),
            _ => None,
        },
    }
}

/// The heartbeat a payload announces: id, name, port, battery, device type.
pub open spec fn heartbeat_spec(payload: Seq<u8>) -> Option<(Seq<char>, Seq<char>, u16, i32, Seq<char>)> {
    match payload_object(payload) {
        None => None,
        Some(v) => match (req_str(v, "uuid"@), req_str(v, "name"@), req_u16(v, "port"@), req_i32(v, "battery"@), req_str(v, "deviceType"@)) {
            (Some(u), Some(n), Some(p), Some(b), Some(t)) => Some((u, n, p, b, t)),
            _ => None,
        },
    }
}

fn get_req_str(v: &Vec<(String, JsonLeaf)>, k: &str) -> (r: Option<String>)
    ensures
        match r {
            Some(s) => req_str(crate::json_model::members_view(v@), k@) == Some(s@),
            None => req_str(crate::json_model::members_view(v@), k@) is None,
        },
{
    match get_member(v, k) {
        Some(JsonLeaf::Str(s)) => Some(s),
        _ => None,
    }
}

fn get_req_i32(v: &Vec<(String, JsonLeaf)>, k: &str) -> (r: Option<i32>)
    ensures
        r == req_i32(crate::json_model::members_view(v@), k@),
{
    match get_member(v, k) {
        Some(JsonLeaf::Raw(t)) => parse_i32(t.as_str()),
        _ => None,
    }
}

fn get_req_u16(v: &Vec<(String, JsonLeaf)>, k: &str) -> (r: Option<u16>)
    ensures
        r == req_u16(crate::json_model::members_view(v@), k@),
{
    match get_member(v, k) {
        Some(JsonLeaf::Raw(t)) => parse_u16(t.as_str()),
        _ => None,
    }
}

fn get_opt_str(v: &Vec<(String, JsonLeaf)>, k: &str) -> (r: Option<Option<String>>)
    ensures
        match r {
            Some(Some(s)) => opt_str(crate::json_model::members_view(v@), k@) == Some(Some(s@)),
            Some(None) => opt_str(crate::json_model::members_view(v@), k@) == Some(None::<Seq<char>>),
            None => opt_str(crate::json_model::members_view(v@), k@) is None,
        },
{
    match get_member(v, k) {
        None => Some(None),
        Some(JsonLeaf::Null) => Some(None),
        Some(JsonLeaf::Str(s)) => Some(Some(s)),
        _ => None,
    }
}

fn get_opt_str_list(v: &Vec<(String, JsonLeaf)>, k: &str) -> (r: Option<Option<Vec<String>>>)
    ensures
        match r {
            Some(Some(l)) => opt_str_list(crate::json_model::members_view(v@), k@)
                == Some(Some(l@.map_values(|s: String| s@))),
            Some(None) => opt_str_list(crate::json_model::members_view(v@), k@) == Some(None::<Seq<Seq<char>>>),
            None => opt_str_list(crate::json_model::members_view(v@), k@) is None,
        },
{
    match get_member(v, k) {
        None => Some(None),
        Some(JsonLeaf::Null) => Some(None),
        Some(JsonLeaf::Raw(t)) => match parse_array(t.as_str()) {
            Some(items) => {
                let ghost iv = items_view(items@);
                let mut out: Vec<String> = Vec::new();
                let mut i: usize = 0;
                while i < items.len()
                    invariant
                        i <= items.len(),
                        iv == items_view(items@),
                        vmember(crate::json_model::members_view(v@), k@) == Some(LeafView::Raw(t@)),
                        json_array_of(t@) == Some(iv),
                        forall|j: int| 0 <= j < i ==> (#[trigger] iv[j]) is Str,
                        out@.len() == i,
                        forall|j: int| 0 <= j < i ==> (#[trigger] out@[j])@ == iv[j]->Str_0,
                    decreases items.len() - i,
                {
                    match &items[i] {
                        JsonLeaf::Str(s) => {
                            out.push(crate::text::owned(s.as_str()));
                        },
                        _ => {
                            assert(!all_strings(iv)) by {
                                assert(!(iv[i as int] is Str));
                            }
                            assert(vmember(crate::json_model::members_view(v@), k@) == Some(LeafView::Raw(t@)));
                            assert(json_array_of(t@) == Some(iv));
                            return None;
                        },
                    }
                    i = i + 1;
                }
                assert(out@.map_values(|s: String| s@) =~= iv.map_values(|l: LeafView| l->Str_0));
                Some(Some(out))
            },
            None => None,
        },
        _ => None,
    }
}

fn payload_members(payload: &[u8]) -> (r: Option<Vec<(String, JsonLeaf)>>)
    ensures
        match r {
            Some(v) => payload_object(payload@) == Some(crate::json_model::members_view(v@)),
            None => payload_object(payload@) is None,
        },
{
    match utf8_text(payload) {
        Some(t) => parse_object(t.as_str()),
        None => None,
    }
}

/// Decodes the JSON payload of a `HANDSHAKE` frame.
pub fn decode_handshake_frame(payload: &[u8]) -> (r: Option<ProtoHandshake>)
    ensures
        match (r, handshake_spec(payload@)) {
            (Some(h), Some((u, p, n, t, b, f, c))) => h.uuid@ == u && h.pub_key@ == p && h.device_name@ == n
                && h.device_type@ == t && h.battery == b
                && match h.feature_flag {
                    Some(l) => f == Some(l@.map_values(|s: String| s@)),
                    None => f is None,
                }
                && match h.core_version {
                    Some(s) => c == Some(s@),
                    None => c is None,
                },
            (None, None) => true,
            _ => false,
        },
{
    let v = match payload_members(payload) {
        Some(v) => v,
        None => return None,
    };
    let uuid = match get_req_str(&v, "uuid") { Some(x) => x, None => return None };
    let pub_key = match get_req_str(&v, "pubKey") { Some(x) => x, None => return None };
    let device_name = match get_req_str(&v, "deviceName") { Some(x) => x, None => return None };
    let device_type = match get_req_str(&v, "deviceType") { Some(x) => x, None => return None };
    let battery = match get_req_i32(&v, "battery") { Some(x) => x, None => return None };
    let feature_flag = match get_opt_str_list(&v, "featureFlag") { Some(x) => x, None => return None };
    let core_version = match get_opt_str(&v, "coreVersion") { Some(x) => x, None => return None };
    Some(ProtoHandshake { uuid, pub_key, device_name, device_type, battery, feature_flag, core_version })
}

/// Decodes the JSON payload of a `HEARTBEAT` frame.
pub fn decode_heartbeat_frame(payload: &[u8]) -> (r: Option<HeartbeatPayload>)
    ensures
        match (r, heartbeat_spec(payload@)) {
            (Some(h), Some((u, n, p, b, t))) => h.uuid@ == u && h.name@ == n && h.port == p && h.battery == b && h.device_type@ == t,
            (None, None) => true,
            _ => false,
        },
{
    let v = match payload_members(payload) {
        Some(v) => v,
        None => return None,
    };
    let uuid = match get_req_str(&v, "uuid") { Some(x) => x, None => return None };
    let name = match get_req_str(&v, "name") { Some(x) => x, None => return None };
    let port = match get_req_u16(&v, "port") { Some(x) => x, None => return None };
    let battery = match get_req_i32(&v, "battery") { Some(x) => x, None => return None };
    let device_type = match get_req_str(&v, "deviceType") { Some(x) => x, None => return None };
    Some(HeartbeatPayload { uuid, name, port, battery, device_type })
}

} // verus!
