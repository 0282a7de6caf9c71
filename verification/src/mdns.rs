//! mDNS advertising and browsing: what this device advertises (its TXT record), when the
//! advertisement must be rebuilt, and what a resolved service of a peer says.
use vstd::prelude::*;
use vstd::string::*;
use vstd::utf8::*;
use crate::crypto::b64::{b64_decode, b64_encode, base64_decoded, base64_text};
use crate::device_registry::BATTERY_UNKNOWN;
use crate::text::{dec_int, owned, parse_i32, parse_signed, push_int, str_eq, utf8_text};

verus! {

/// The service type advertised and browsed.
pub const MDNS_SERVICE_TYPE: &'static str = "_notifyrelay._tcp.local.";

/// What the advertisement carries; kept to rebuild it when the battery changes.
pub struct AdvertiseParams {
    pub uuid: String,
    pub name: String,
    pub port: u16,
    pub pubkey: String,
    pub device_type: String,
    pub battery: i32,
}

/// The advertiser and browser state.
pub struct MdnsState {
    pub advertise_params: Option<AdvertiseParams>,
    /// Whether an advertisement is registered.
    pub advertising: bool,
    /// Whether the browser runs.
    pub browsing: bool,
}

/// The TXT record of an advertisement: id, base64 name, public key, device type, battery.
pub open spec fn txt_record(p: AdvertiseParams) -> Seq<(Seq<char>, Seq<char>)> {
    seq![
        ("uuid"@, p.uuid@),
        ("name"@, base64_text(p.name@)),
        ("pubkey"@, p.pubkey@),
        ("device_type"@, p.device_type@),
        ("battery"@, dec_int(p.battery as int)),
    ]
}

/// The texts of a list of pairs.
pub open spec fn pairs_view(v: Seq<(String, String)>) -> Seq<(Seq<char>, Seq<char>)> {
    v.map_values(|e: (String, String)| (e.0@, e.1@))
}

impl MdnsState {
    /// Not advertising, not browsing.
    pub fn new() -> (r: MdnsState)
        ensures
            r.advertise_params is None && !r.advertising && !r.browsing,
    {
        MdnsState { advertise_params: None, advertising: false, browsing: false }
    }

    /// Whether an advertisement is registered.
    pub fn is_advertising(&self) -> (r: bool)
        ensures
            r == self.advertising,
    {
        self.advertising
    }

    /// Keeps what to advertise; answers whether an advertisement must be registered now
    /// (not when one already is, in which case nothing changes).
    pub fn start_advertiser(&mut self, uuid: &str, name: &str, port: u16, pubkey: &str, device_type: &str, battery: i32) -> (r: bool)
        ensures
            r == !old(self).advertising,
            !r ==> *final(self) == *old(self),
            r ==> (final(self).advertise_params matches Some(p) && p.uuid@ == uuid@ && p.name@ == name@ && p.port == port
                && p.pubkey@ == pubkey@ && p.device_type@ == device_type@ && p.battery == battery),
            final(self).advertising == old(self).advertising,
            final(self).browsing == old(self).browsing,
    {
        if self.advertising {
            return false;
        }
        self.advertise_params = Some(AdvertiseParams {
            uuid: owned(uuid),
            name: owned(name),
            port,
            pubkey: owned(pubkey),
            device_type: owned(device_type),
            battery,
        });
        true
    }

    /// The advertisement was registered (or failed to be, `ok` false).
    pub fn advertiser_started(&mut self, ok: bool)
        ensures
            final(self).advertising == (old(self).advertising || ok),
            final(self).advertise_params == old(self).advertise_params,
            final(self).browsing == old(self).browsing,
    {
        if ok {
            self.advertising = true;
        }
    }

    /// Unregisters the advertisement (its parameters are kept).
    pub fn stop_advertiser(&mut self)
        ensures
            !final(self).advertising,
            final(self).advertise_params == old(self).advertise_params,
            final(self).browsing == old(self).browsing,
    {
        self.advertising = false;
    }

    /// A battery change: the parameters to rebuild the advertisement with, or `None` when
    /// the value is unknown (outside `[-100, 100]`), nothing is advertised, or it is unchanged.
    /// The advertisement is down until it is registered again.
    pub fn update_battery(&mut self, battery: i32) -> (r: Option<AdvertiseParams>)
        ensures
            (battery < -100 || battery > 100 || old(self).advertise_params is None
                || old(self).advertise_params->0.battery == battery) ==> r is None && *final(self) == *old(self),
            !(battery < -100 || battery > 100 || old(self).advertise_params is None
                || old(self).advertise_params->0.battery == battery) ==> {
                let p = old(self).advertise_params->0;
                &&& r matches Some(q) && q.uuid@ == p.uuid@ && q.name@ == p.name@ && q.port == p.port
                    && q.pubkey@ == p.pubkey@ && q.device_type@ == p.device_type@ && q.battery == battery
                &&& !final(self).advertising
                &&& final(self).advertise_params == old(self).advertise_params
            },
            final(self).browsing == old(self).browsing,
    {
        if battery < -100 || battery > 100 {
            return None;
        }
        match &self.advertise_params {
            None => None,
            Some(p) => {
                if p.battery == battery {
                    return None;
                }
                let q = AdvertiseParams {
                    uuid: owned(p.uuid.as_str()),
                    name: owned(p.name.as_str()),
                    port: p.port,
                    pubkey: owned(p.pubkey.as_str()),
                    device_type: owned(p.device_type.as_str()),
                    battery,
                };
                self.advertising = false;
                Some(q)
            },
        }
    }

    /// The rebuilt advertisement with `battery` was registered: the kept battery follows.
    pub fn battery_updated(&mut self, battery: i32)
        ensures
            final(self).advertising,
            match old(self).advertise_params {
                Some(p) => final(self).advertise_params matches Some(q) && q.battery == battery && q.uuid == p.uuid
                    && q.name == p.name && q.port == p.port && q.pubkey == p.pubkey && q.device_type == p.device_type,
                None => final(self).advertise_params is None,
            },
            final(self).browsing == old(self).browsing,
    {
        self.advertising = true;
        match &mut self.advertise_params {
            Some(p) => {
                p.battery = battery;
            },
            None => {},
        }
    }

    /// Answers whether the browser must be started (not when it runs).
    pub fn start_browser(&mut self) -> (r: bool)
        ensures
            r == !old(self).browsing,
            final(self).browsing,
            final(self).advertising == old(self).advertising,
            final(self).advertise_params == old(self).advertise_params,
    {
        if self.browsing {
            return false;
        }
        self.browsing = true;
        true
    }

    /// Stops the browser.
    pub fn stop_browser(&mut self)
        ensures
            !final(self).browsing,
            final(self).advertising == old(self).advertising,
            final(self).advertise_params == old(self).advertise_params,
    {
        self.browsing = false;
    }
}

/// The TXT record of an advertisement.
pub fn txt_properties(p: &AdvertiseParams) -> (r: Vec<(String, String)>)
    ensures
        pairs_view(r@) == txt_record(*p),
{
    let mut battery = String::new();
    push_int(&mut battery, p.battery as i64);
    assert(battery@ =~= dec_int(p.battery as int));
    let mut v: Vec<(String, String)> = Vec::new();
    v.push((owned("uuid"), owned(p.uuid.as_str())));
    v.push((owned("name"), b64_encode(p.name.as_str())));
    v.push((owned("pubkey"), owned(p.pubkey.as_str())));
    v.push((owned("device_type"), owned(p.device_type.as_str())));
    v.push((owned("battery"), battery));
    assert(pairs_view(v@) =~= txt_record(*p));
    v
}

/// A peer found by mDNS.
pub struct MdnsDevice {
    pub uuid: String,
    pub name: String,
    pub ip: String,
    pub port: u16,
    pub battery: i32,
    pub device_type: String,
}

/// The name a peer advertises: its base64 name decoded as UTF-8 (empty when it is not base64),
/// else the text as it came.
pub open spec fn advertised_name(name_b64: Seq<char>) -> Seq<char> {
    let bytes = match base64_decoded(name_b64) {
        Some(b) => b,
        None => Seq::empty(),
    };
    if valid_utf8(bytes) {
        decode_utf8(bytes)
    } else {
        name_b64
    }
}

/// The battery a peer advertises: its text as an `i32`, else unknown.
pub open spec fn advertised_battery(text: Option<Seq<char>>) -> i32 {
    match text {
        Some(t) => match parse_signed(t, i32::MAX as nat) {
            Some(b) => b as i32,
            None => BATTERY_UNKNOWN,
        },
        None => BATTERY_UNKNOWN,
    }
}

/// A resolved service with TXT values `uuid`, `name`, `device_type` (empty when missing) and
/// `battery`, first IPv4 address `ip` and port `port`: the peer it announces, unless the id
/// is empty or it is this device (`local_uuid`).
pub fn resolve_service(
    uuid: &str,
    name_b64: &str,
    device_type: &str,
    battery: Option<&str>,
    ip: &str,
    port: u16,
    local_uuid: &str,
) -> (r: Option<MdnsDevice>)
    ensures
        (uuid@.len() == 0 || (local_uuid@.len() > 0 && uuid@ == local_uuid@)) ==> r is None,
        !(uuid@.len() == 0 || (local_uuid@.len() > 0 && uuid@ == local_uuid@)) ==> (r matches Some(d)
            && d.uuid@ == uuid@ && d.name@ == advertised_name(name_b64@) && d.ip@ == ip@ && d.port == port
            && d.battery == advertised_battery(match battery { Some(b) => Some(b@), None => None })
            && d.device_type@ == device_type@),
{
    if uuid.is_empty() {
        return None;
    }
    if !local_uuid.is_empty() && str_eq(uuid, local_uuid) {
        return None;
    }
    let bytes: Vec<u8> = match b64_decode(name_b64) {
        Ok(b) => b,
        Err(_) => Vec::new(),
    };
    let name = match utf8_text(bytes.as_slice()) {
        Some(s) => s,
        None => owned(name_b64),
    };
    let bat = match battery {
        Some(t) => match parse_i32(t) {
            Some(b) => b,
            None => BATTERY_UNKNOWN,
        },
        None => BATTERY_UNKNOWN,
    };
    Some(MdnsDevice {
        uuid: owned(uuid),
        name,
        ip: owned(ip),
        port,
        battery: bat,
        device_type: owned(device_type),
    })
}

} // verus!
