//! Message type numbers, device types, feature flags and text headers of the wire protocol.
use vstd::prelude::*;
use vstd::string::*;
use crate::text::{
    ascii_lowercase, is_ascii_or_cjk_text, chars_of, find_char, first_index, is_prefix, lemma_first_index, lowercase, str_eq,
    str_starts_with, to_lowercase,
};

verus! {

/// Numbers of the binary frame types.
pub struct MessageType;

impl MessageType {
    pub const HEARTBEAT: u8 = 0;
    pub const HANDSHAKE: u8 = 1;
    pub const NOTIFICATION: u8 = 10;
    pub const CLIPBOARD: u8 = 13;
    pub const DEVICE_STATUS: u8 = 15;
    pub const SYNC_SEARCH_APP: u8 = 19;
    pub const SYNC_SEARCH_APP_RESPONSE: u8 = 20;
    pub const RELAY_APPLICATION: u8 = 22;
    pub const PACKAGE_INFO: u8 = 42;
    pub const MEDIA_SESSION: u8 = 51;
    pub const MEDIA_SESSION_CONTROL: u8 = 52;
    pub const FEATURE_STATUS: u8 = 66;
    pub const FTP: u8 = 200;
    pub const PAIRING_INIT: u8 = 240;
    pub const PAIRING_RESP: u8 = 241;
    pub const DISCOVERY_REQUEST: u8 = 242;
    pub const DISCOVERY_RESPONSE: u8 = 243;
    pub const ACCEPT: u8 = 244;
    pub const REJECT: u8 = 245;
    pub const ACK: u8 = 246;
}

/// Kind of a peer device.
#[derive(Debug, Clone, Copy, PartialEq, Eq, Structural)]
pub enum DeviceType {
    Phone,
    Pad,
    Tv,
    Laptop,
    Desktop,
    Speaker,
    Watch,
    Unknown,
}

/// The device type named by an already lower-cased name.
pub open spec fn device_type_of_lower(l: Seq<char>) -> DeviceType {
    if l == "phone"@ || l == "手机"@ {
        DeviceType::Phone
    } else if l == "pad"@ || l == "tablet"@ || l == "平板"@ {
        DeviceType::Pad
    } else if l == "tv"@ || l == "电视"@ {
        DeviceType::Tv
    } else if l == "laptop"@ || l == "笔记本"@ {
        DeviceType::Laptop
    } else if l == "desktop"@ || l == "台式机"@ || l == "pc"@ {
        DeviceType::Desktop
    } else if l == "speaker"@ || l == "音箱"@ {
        DeviceType::Speaker
    } else if l == "watch"@ || l == "手表"@ {
        DeviceType::Watch
    } else {
        DeviceType::Unknown
    }
}

/// Display name of a device type.
pub open spec fn device_type_name(t: DeviceType) -> Seq<char> {
    match t {
        DeviceType::Phone => "Phone"@,
        DeviceType::Pad => "Pad"@,
        DeviceType::Tv => "Tv"@,
        DeviceType::Laptop => "Laptop"@,
        DeviceType::Desktop => "Desktop"@,
        DeviceType::Speaker => "Speaker"@,
        DeviceType::Watch => "Watch"@,
        DeviceType::Unknown => "Unknown"@,
    }
}

impl DeviceType {
    /// Parses a device type name, case-insensitively (English and Chinese names).
    pub fn from_str(s: &str) -> (r: DeviceType)
        ensures
            r == device_type_of_lower(lowercase(s@)),
            is_ascii_or_cjk_text(s@) ==> r == device_type_of_lower(ascii_lowercase(s@)),
    {
        let lower = to_lowercase(s);
        let l = lower.as_str();
        if str_eq(l, "phone") || str_eq(l, "手机") {
            DeviceType::Phone
        } else if str_eq(l, "pad") || str_eq(l, "tablet") || str_eq(l, "平板") {
            DeviceType::Pad
        } else if str_eq(l, "tv") || str_eq(l, "电视") {
            DeviceType::Tv
        } else if str_eq(l, "laptop") || str_eq(l, "笔记本") {
            DeviceType::Laptop
        } else if str_eq(l, "desktop") || str_eq(l, "台式机") || str_eq(l, "pc") {
            DeviceType::Desktop
        } else if str_eq(l, "speaker") || str_eq(l, "音箱") {
            DeviceType::Speaker
        } else if str_eq(l, "watch") || str_eq(l, "手表") {
            DeviceType::Watch
        } else {
            DeviceType::Unknown
        }
    }

    /// Display name of the device type.
    pub fn to_str(self) -> (r: &'static str)
        ensures
            r@ == device_type_name(self),
    {
        match self {
            DeviceType::Phone => "Phone",
            DeviceType::Pad => "Pad",
            DeviceType::Tv => "Tv",
            DeviceType::Laptop => "Laptop",
            DeviceType::Desktop => "Desktop",
            DeviceType::Speaker => "Speaker",
            DeviceType::Watch => "Watch",
            DeviceType::Unknown => "Unknown",
        }
    }
}

/// Law: parsing the display name of a device type gives that type back (with the contracts of
/// `to_str` and `from_str`: `from_str(t.to_str()) == t` for every type).
pub proof fn law_device_type_name_roundtrip(t: DeviceType)
    ensures
        is_ascii_or_cjk_text(device_type_name(t)),
        device_type_of_lower(ascii_lowercase(device_type_name(t))) == t,
{
    reveal_strlit("Phone");
    reveal_strlit("Pad");
    reveal_strlit("Tv");
    reveal_strlit("Laptop");
    reveal_strlit("Desktop");
    reveal_strlit("Speaker");
    reveal_strlit("Watch");
    reveal_strlit("Unknown");
    reveal_strlit("phone");
    reveal_strlit("pad");
    reveal_strlit("tv");
    reveal_strlit("laptop");
    reveal_strlit("desktop");
    reveal_strlit("speaker");
    reveal_strlit("watch");
    reveal_strlit("手机");
    reveal_strlit("tablet");
    reveal_strlit("平板");
    reveal_strlit("电视");
    reveal_strlit("笔记本");
    reveal_strlit("台式机");
    reveal_strlit("pc");
    reveal_strlit("音箱");
    reveal_strlit("手表");
    reveal_strlit("unknown");
    match t {
        DeviceType::Phone => {
            assert(ascii_lowercase("Phone"@) =~= "phone"@);
            assert(device_type_of_lower("phone"@) == DeviceType::Phone);
        },
        DeviceType::Pad => {
            assert(ascii_lowercase("Pad"@) =~= "pad"@);
            assert(device_type_of_lower("pad"@) == DeviceType::Pad);
        },
        DeviceType::Tv => {
            assert(ascii_lowercase("Tv"@) =~= "tv"@);
            assert("tv"@[0] != "手机"@[0] && "tv"@[0] != "平板"@[0]);
            assert(device_type_of_lower("tv"@) == DeviceType::Tv);
        },
        DeviceType::Laptop => {
            assert(ascii_lowercase("Laptop"@) =~= "laptop"@);
            assert("laptop"@[0] != "tablet"@[0]);
            assert(device_type_of_lower("laptop"@) == DeviceType::Laptop);
        },
        DeviceType::Desktop => {
            assert(ascii_lowercase("Desktop"@) =~= "desktop"@);
            assert(device_type_of_lower("desktop"@) == DeviceType::Desktop);
        },
        DeviceType::Speaker => {
            assert(ascii_lowercase("Speaker"@) =~= "speaker"@);
            assert("speaker"@[0] != "desktop"@[0]);
            assert(device_type_of_lower("speaker"@) == DeviceType::Speaker);
        },
        DeviceType::Watch => {
            assert(ascii_lowercase("Watch"@) =~= "watch"@);
            assert("watch"@[0] != "phone"@[0]);
            assert(device_type_of_lower("watch"@) == DeviceType::Watch);
        },
        DeviceType::Unknown => {
            assert(ascii_lowercase("Unknown"@) =~= "unknown"@);
            assert("unknown"@[0] != "speaker"@[0] && "unknown"@[0] != "desktop"@[0]);
            assert(device_type_of_lower("unknown"@) == DeviceType::Unknown);
        },
    }
}

/// Feature names announced in a handshake.
pub struct FeatureFlag;

impl FeatureFlag {
    pub const NOTIFICATION: &'static str = "NOTIFICATION";
    pub const MEDIA_SESSION: &'static str = "MEDIA_SESSION";
    pub const CLIPBOARD: &'static str = "CLIPBOARD";
    pub const SUPERISLAND: &'static str = "SUPERISLAND";
    pub const PACKAGE_INFO: &'static str = "PACKAGE_INFO";
    pub const APP_LIST: &'static str = "APP_LIST";
    pub const MEDIA_CONTROL: &'static str = "MEDIA_CONTROL";
    pub const FTP: &'static str = "FTP";
    pub const APP_LAUNCH: &'static str = "APP_LAUNCH";
}

/// Every feature this core supports, in announcement order.
pub open spec fn supported_features() -> Seq<Seq<char>> {
    seq![
        "NOTIFICATION"@,
        "MEDIA_SESSION"@,
        "CLIPBOARD"@,
        "SUPERISLAND"@,
        "PACKAGE_INFO"@,
        "APP_LIST"@,
        "MEDIA_CONTROL"@,
        "FTP"@,
        "APP_LAUNCH"@,
    ]
}

impl FeatureFlag {
    /// The full list of supported features.
    pub fn supported() -> (r: Vec<&'static str>)
        ensures
            r@.len() == supported_features().len(),
            forall|i: int| 0 <= i < r@.len() ==> (#[trigger] r@[i])@ == supported_features()[i],
    {
        let mut v: Vec<&'static str> = Vec::new();
        v.push("NOTIFICATION");
        v.push("MEDIA_SESSION");
        v.push("CLIPBOARD");
        v.push("SUPERISLAND");
        v.push("PACKAGE_INFO");
        v.push("APP_LIST");
        v.push("MEDIA_CONTROL");
        v.push("FTP");
        v.push("APP_LAUNCH");
        v
    }
}

/// Header of a text protocol line: the part before its first `:`.
#[derive(Debug, Clone, Copy, PartialEq, Eq)]
pub enum ProtocolHeader<'a> {
    PairingInit,
    PairingResp,
    Accept,
    Reject,
    Ack,
    Handshake,
    Data(&'a str),
    HeartbeatTcp,
    Unknown(&'a str),
}

/// Abstract form of a `ProtocolHeader`.
pub enum HeaderView {
    PairingInit,
    PairingResp,
    Accept,
    Reject,
    Ack,
    Handshake,
    Data(Seq<char>),
    HeartbeatTcp,
    Unknown(Seq<char>),
}

/// Classifies a header prefix.
pub open spec fn classify_prefix(p: Seq<char>) -> HeaderView {
    if p == "PAIRING_INIT"@ {
        HeaderView::PairingInit
    } else if p == "PAIRING_RESP"@ {
        HeaderView::PairingResp
    } else if p == "ACCEPT"@ {
        HeaderView::Accept
    } else if p == "REJECT"@ {
        HeaderView::Reject
    } else if p == "ACK"@ {
        HeaderView::Ack
    } else if p == "HANDSHAKE"@ {
        HeaderView::Handshake
    } else if p == "HEARTBEAT_TCP"@ {
        HeaderView::HeartbeatTcp
    } else if is_prefix("DATA"@, p) {
        HeaderView::Data(p)
    } else {
        HeaderView::Unknown(p)
    }
}

/// The header of a line: its part before the first `:`, or the whole line as unknown.
pub open spec fn header_of(line: Seq<char>) -> HeaderView {
    match first_index(line, ':') {
        Some(i) => classify_prefix(line.take(i)),
        None => HeaderView::Unknown(line),
    }
}

impl<'a> View for ProtocolHeader<'a> {
    type V = HeaderView;

    open spec fn view(&self) -> HeaderView {
        match *self {
            ProtocolHeader::PairingInit => HeaderView::PairingInit,
            ProtocolHeader::PairingResp => HeaderView::PairingResp,
            ProtocolHeader::Accept => HeaderView::Accept,
            ProtocolHeader::Reject => HeaderView::Reject,
            ProtocolHeader::Ack => HeaderView::Ack,
            ProtocolHeader::Handshake => HeaderView::Handshake,
            ProtocolHeader::Data(h) => HeaderView::Data(h@),
            ProtocolHeader::HeartbeatTcp => HeaderView::HeartbeatTcp,
            ProtocolHeader::Unknown(h) => HeaderView::Unknown(h@),
        }
    }
}

impl<'a> ProtocolHeader<'a> {
    /// Parses the header of a text protocol line.
    pub fn parse(line: &'a str) -> (r: ProtocolHeader<'a>)
        ensures
            r@ == header_of(line@),
    {
        let chars = chars_of(line);
        match find_char(chars.as_slice(), ':') {
            Some(pos) => {
                proof {
                    lemma_first_index(line@, ':');
                }
                let prefix: &'a str = line.substring_char(0, pos);
                assert(prefix@ == line@.take(pos as int));
                if str_eq(prefix, "PAIRING_INIT") {
                    ProtocolHeader::PairingInit
                } else if str_eq(prefix, "PAIRING_RESP") {
                    ProtocolHeader::PairingResp
                } else if str_eq(prefix, "ACCEPT") {
                    ProtocolHeader::Accept
                } else if str_eq(prefix, "REJECT") {
                    ProtocolHeader::Reject
                } else if str_eq(prefix, "ACK") {
                    ProtocolHeader::Ack
                } else if str_eq(prefix, "HANDSHAKE") {
                    ProtocolHeader::Handshake
                } else if str_eq(prefix, "HEARTBEAT_TCP") {
                    ProtocolHeader::HeartbeatTcp
                } else if str_starts_with(prefix, "DATA") {
                    ProtocolHeader::Data(prefix)
                } else {
                    ProtocolHeader::Unknown(prefix)
                }
            },
            None => ProtocolHeader::Unknown(line),
        }
    }

    /// Whether the header names a DATA message.
    pub fn is_data(&self) -> (r: bool)
        ensures
            r == (self@ is Data),
    {
        match self {
            ProtocolHeader::Data(_) => true,
            _ => false,
        }
    }

    /// The header's text as it is printed.
    pub fn as_str(&self) -> (r: &'a str)
        ensures
            r@ == header_text(self@),
    {
        match *self {
            ProtocolHeader::PairingInit => "PAIRING_INIT",
            ProtocolHeader::PairingResp => "PAIRING_RESP",
            ProtocolHeader::Accept => "ACCEPT",
            ProtocolHeader::Reject => "REJECT",
            ProtocolHeader::Ack => "ACK",
            ProtocolHeader::Handshake => "HANDSHAKE",
            ProtocolHeader::Data(h) => h,
            ProtocolHeader::HeartbeatTcp => "HEARTBEAT_TCP",
            ProtocolHeader::Unknown(h) => h,
        }
    }
}

/// Text of a header.
pub open spec fn header_text(h: HeaderView) -> Seq<char> {
    match h {
        HeaderView::PairingInit => "PAIRING_INIT"@,
        HeaderView::PairingResp => "PAIRING_RESP"@,
        HeaderView::Accept => "ACCEPT"@,
        HeaderView::Reject => "REJECT"@,
        HeaderView::Ack => "ACK"@,
        HeaderView::Handshake => "HANDSHAKE"@,
        HeaderView::Data(p) => p,
        HeaderView::HeartbeatTcp => "HEARTBEAT_TCP"@,
        HeaderView::Unknown(p) => p,
    }
}

} // verus!
