//! Binary frames: `type (1 byte) | length (4 bytes, little endian) | payload`.
use vstd::prelude::*;
use vstd::string::*;
use vstd::utf8::*;
use super::header::MessageType;
use super::version::CORE_VERSION;
use crate::text::{push_char, push_dec, push_int, push_str, dec_digits, dec_int, str_eq};

verus! {

/// Largest payload a frame may announce (16 MiB).
pub const MAX_FRAME_LEN: u32 = 16777216;

/// Why a byte buffer does not hold a frame.
#[derive(Debug, Clone, Copy, PartialEq, Eq, Structural)]
pub enum FrameError {
    /// Fewer bytes than the header or the announced payload needs.
    Incomplete,
    /// The announced payload is larger than `MAX_FRAME_LEN`.
    TooLarge(u32),
}

/// Little-endian bytes of a `u32`.
pub open spec fn le32(x: u32) -> Seq<u8> {
    seq![(x & 0xff) as u8, ((x >> 8u32) & 0xff) as u8, ((x >> 16u32) & 0xff) as u8, ((x >> 24u32) & 0xff) as u8]
}

/// The `u32` whose little-endian bytes are `b0 b1 b2 b3`.
pub open spec fn from_le32(b0: u8, b1: u8, b2: u8, b3: u8) -> u32 {
    (b0 as u32) | ((b1 as u32) << 8u32) | ((b2 as u32) << 16u32) | ((b3 as u32) << 24u32)
}

/// Bytes of a frame; the announced length is the payload length truncated to 32 bits.
pub open spec fn frame_bytes(t: u8, payload: Seq<u8>) -> Seq<u8> {
    seq![t] + le32(payload.len() as u32) + payload
}

/// What `read_frame` makes of a buffer that starts with a frame.
pub open spec fn read_frame_spec(buf: Seq<u8>) -> Result<(u8, Seq<u8>), FrameError> {
    if buf.len() < 5 {
        Err(FrameError::Incomplete)
    } else {
        let len = from_le32(buf[1], buf[2], buf[3], buf[4]);
        if len > MAX_FRAME_LEN {
            Err(FrameError::TooLarge(len))
        } else if buf.len() < 5 + len {
            Err(FrameError::Incomplete)
        } else {
            Ok((buf[0], buf.subrange(5, 5 + len)))
        }
    }
}

proof fn lemma_le32_roundtrip(x: u32)
    ensures
        from_le32(le32(x)[0], le32(x)[1], le32(x)[2], le32(x)[3]) == x,
{
    assert(((x & 0xff) as u8 as u32) | ((((x >> 8u32) & 0xff) as u8 as u32) << 8u32)
        | ((((x >> 16u32) & 0xff) as u8 as u32) << 16u32) | ((((x >> 24u32) & 0xff) as u8 as u32) << 24u32) == x)
        by (bit_vector);
}

/// Decodes the 5-byte frame header into the type and the payload length.
pub fn decode_frame_header(header: &[u8]) -> (r: Result<(u8, u32), FrameError>)
    requires
        header@.len() >= 5,
    ensures
        ({
            let len = from_le32(header@[1], header@[2], header@[3], header@[4]);
            if len > MAX_FRAME_LEN {
                r == Err::<(u8, u32), FrameError>(FrameError::TooLarge(len))
            } else {
                r == Ok::<(u8, u32), FrameError>((header@[0], len))
            }
        }),
{
    let len: u32 = (header[1] as u32) | ((header[2] as u32) << 8u32) | ((header[3] as u32) << 16u32)
        | ((header[4] as u32) << 24u32);
    if len > MAX_FRAME_LEN {
        Err(FrameError::TooLarge(len))
    } else {
        Ok((header[0], len))
    }
}

/// Reads the frame at the start of `buf`; bytes after it are left alone.
pub fn read_frame(buf: &[u8]) -> (r: Result<(u8, Vec<u8>), FrameError>)
    ensures
        match (r, read_frame_spec(buf@)) {
            (Ok((t, p)), Ok((st, sp))) => t == st && p@ == sp,
            (Err(e), Err(se)) => e == se,
            _ => false,
        },
{
    if buf.len() < 5 {
        return Err(FrameError::Incomplete);
    }
    let (t, len) = match decode_frame_header(buf) {
        Ok(h) => h,
        Err(e) => return Err(e),
    };
    if buf.len() < 5 + len as usize {
        return Err(FrameError::Incomplete);
    }
    let end: usize = 5 + len as usize;
    let mut payload: Vec<u8> = Vec::new();
    let mut i: usize = 5;
    while i < end
        invariant
            5 <= i <= end <= buf.len(),
            payload@ == buf@.subrange(5, i as int),
        decreases end - i,
    {
        payload.push(buf[i]);
        i = i + 1;
        assert(buf@.subrange(5, i as int) == buf@.subrange(5, i - 1).push(buf@[i - 1]));
    }
    Ok((t, payload))
}

/// Bytes of a frame with type `msg_type` carrying `payload`.
pub fn write_frame(msg_type: u8, payload: &[u8]) -> (r: Vec<u8>)
    ensures
        r@ == frame_bytes(msg_type, payload@),
{
    let len: u32 = payload.len() as u32;
    let mut f: Vec<u8> = Vec::new();
    f.push(msg_type);
    f.push((len & 0xff) as u8);
    f.push(((len >> 8u32) & 0xff) as u8);
    f.push(((len >> 16u32) & 0xff) as u8);
    f.push(((len >> 24u32) & 0xff) as u8);
    assert(f@ == seq![msg_type] + le32(payload@.len() as u32));
    let ghost head = f@;
    let mut i: usize = 0;
    while i < payload.len()
        invariant
            i <= payload.len(),
            f@ == head + payload@.take(i as int),
        decreases payload.len() - i,
    {
        f.push(payload[i]);
        i = i + 1;
        assert(payload@.take(i as int) == payload@.take(i - 1).push(payload@[i - 1]));
    }
    assert(payload@.take(payload.len() as int) == payload@);
    f
}

/// Law: a frame whose payload fits the limit reads back as the type and payload written.
pub proof fn law_frame_roundtrip(t: u8, payload: Seq<u8>)
    requires
        payload.len() <= MAX_FRAME_LEN,
    ensures
        read_frame_spec(frame_bytes(t, payload)) == Ok::<(u8, Seq<u8>), FrameError>((t, payload)),
{
    let b = frame_bytes(t, payload);
    let x = payload.len() as u32;
    lemma_le32_roundtrip(x);
    assert(b[1] == le32(x)[0] && b[2] == le32(x)[1] && b[3] == le32(x)[2] && b[4] == le32(x)[3]);
    assert(b[0] == t);
    assert(b.subrange(5, 5 + x) =~= payload);
}

/// Law: the frame read ahead of trailing bytes is unaffected by them.
pub proof fn law_frame_prefix(buf: Seq<u8>, more: Seq<u8>)
    requires
        read_frame_spec(buf) is Ok,
    ensures
        read_frame_spec(buf + more) == read_frame_spec(buf),
{
    let b = buf + more;
    assert(b[0] == buf[0] && b[1] == buf[1] && b[2] == buf[2] && b[3] == buf[3] && b[4] == buf[4]);
    let len = from_le32(buf[1], buf[2], buf[3], buf[4]);
    assert(b.subrange(5, 5 + len) =~= buf.subrange(5, 5 + len));
}

/// The UTF-8 bytes of a text.
pub fn text_bytes(s: &str) -> (r: Vec<u8>)
    ensures
        r@ == encode_utf8(s@),
{
    vstd::slice::slice_to_vec(s.as_bytes())
}

/// The message type of a `DATA_*` header (`0xFF` when unknown).
pub open spec fn data_header_type(h: Seq<char>) -> u8 {
    if h == "DATA_NOTIFICATION"@ {
        MessageType::NOTIFICATION
    } else if h == "DATA_MEDIAPLAY"@ {
        MessageType::MEDIA_SESSION
    } else if h == "DATA_SUPERISLAND"@ {
        MessageType::FEATURE_STATUS
    } else if h == "DATA_CLIPBOARD"@ {
        MessageType::CLIPBOARD
    } else if h == "DATA_ICON_REQUEST"@ || h == "DATA_ICON_RESPONSE"@ {
        MessageType::PACKAGE_INFO
    } else if h == "DATA_APP_LIST_REQUEST"@ {
        MessageType::SYNC_SEARCH_APP
    } else if h == "DATA_APP_LIST_RESPONSE"@ {
        MessageType::SYNC_SEARCH_APP_RESPONSE
    } else if h == "DATA_MEDIA_CONTROL"@ {
        MessageType::MEDIA_SESSION_CONTROL
    } else if h == "DATA_FTP"@ {
        MessageType::FTP
    } else if h == "DATA_STATUS"@ {
        MessageType::DEVICE_STATUS
    } else if h == "DATA_APP_LAUNCH"@ {
        MessageType::RELAY_APPLICATION
    } else {
        0xFFu8
    }
}

/// The `DATA_*` header of a message type (`DATA_UNKNOWN` when it has none).
pub open spec fn type_data_header(t: u8) -> Seq<char> {
    if t == MessageType::NOTIFICATION {
        "DATA_NOTIFICATION"@
    } else if t == MessageType::MEDIA_SESSION {
        "DATA_MEDIAPLAY"@
    } else if t == MessageType::FEATURE_STATUS {
        "DATA_SUPERISLAND"@
    } else if t == MessageType::CLIPBOARD {
        "DATA_CLIPBOARD"@
    } else if t == MessageType::PACKAGE_INFO {
        "DATA_ICON_REQUEST"@
    } else if t == MessageType::SYNC_SEARCH_APP {
        "DATA_APP_LIST_REQUEST"@
    } else if t == MessageType::SYNC_SEARCH_APP_RESPONSE {
        "DATA_APP_LIST_RESPONSE"@
    } else if t == MessageType::MEDIA_SESSION_CONTROL {
        "DATA_MEDIA_CONTROL"@
    } else if t == MessageType::FTP {
        "DATA_FTP"@
    } else if t == MessageType::DEVICE_STATUS {
        "DATA_STATUS"@
    } else if t == MessageType::RELAY_APPLICATION {
        "DATA_APP_LAUNCH"@
    } else {
        "DATA_UNKNOWN"@
    }
}

/// Maps a `DATA_*` header to its message type.
pub fn data_header_to_type(header: &str) -> (r: u8)
    ensures
        r == data_header_type(header@),
{
    if str_eq(header, "DATA_NOTIFICATION") {
        MessageType::NOTIFICATION
    } else if str_eq(header, "DATA_MEDIAPLAY") {
        MessageType::MEDIA_SESSION
    } else if str_eq(header, "DATA_SUPERISLAND") {
        MessageType::FEATURE_STATUS
    } else if str_eq(header, "DATA_CLIPBOARD") {
        MessageType::CLIPBOARD
    } else if str_eq(header, "DATA_ICON_REQUEST") || str_eq(header, "DATA_ICON_RESPONSE") {
        MessageType::PACKAGE_INFO
    } else if str_eq(header, "DATA_APP_LIST_REQUEST") {
        MessageType::SYNC_SEARCH_APP
    } else if str_eq(header, "DATA_APP_LIST_RESPONSE") {
        MessageType::SYNC_SEARCH_APP_RESPONSE
    } else if str_eq(header, "DATA_MEDIA_CONTROL") {
        MessageType::MEDIA_SESSION_CONTROL
    } else if str_eq(header, "DATA_FTP") {
        MessageType::FTP
    } else if str_eq(header, "DATA_STATUS") {
        MessageType::DEVICE_STATUS
    } else if str_eq(header, "DATA_APP_LAUNCH") {
        MessageType::RELAY_APPLICATION
    } else {
        0xFF
    }
}

/// Maps a message type to its `DATA_*` header.
pub fn type_to_data_header(msg_type: u8) -> (r: &'static str)
    ensures
        r@ == type_data_header(msg_type),
{
    if msg_type == MessageType::NOTIFICATION {
        "DATA_NOTIFICATION"
    } else if msg_type == MessageType::MEDIA_SESSION {
        "DATA_MEDIAPLAY"
    } else if msg_type == MessageType::FEATURE_STATUS {
        "DATA_SUPERISLAND"
    } else if msg_type == MessageType::CLIPBOARD {
        "DATA_CLIPBOARD"
    } else if msg_type == MessageType::PACKAGE_INFO {
        "DATA_ICON_REQUEST"
    } else if msg_type == MessageType::SYNC_SEARCH_APP {
        "DATA_APP_LIST_REQUEST"
    } else if msg_type == MessageType::SYNC_SEARCH_APP_RESPONSE {
        "DATA_APP_LIST_RESPONSE"
    } else if msg_type == MessageType::MEDIA_SESSION_CONTROL {
        "DATA_MEDIA_CONTROL"
    } else if msg_type == MessageType::FTP {
        "DATA_FTP"
    } else if msg_type == MessageType::DEVICE_STATUS {
        "DATA_STATUS"
    } else if msg_type == MessageType::RELAY_APPLICATION {
        "DATA_APP_LAUNCH"
    } else {
        "DATA_UNKNOWN"
    }
}

/// Law: every message type that has a `DATA_*` header maps back to itself through it.
pub proof fn law_data_type_header_roundtrip(t: u8)
    requires
        type_data_header(t) != "DATA_UNKNOWN"@,
    ensures
        data_header_type(type_data_header(t)) == t,
{
    reveal_strlit("DATA_NOTIFICATION");
    reveal_strlit("DATA_MEDIAPLAY");
    reveal_strlit("DATA_SUPERISLAND");
    reveal_strlit("DATA_CLIPBOARD");
    reveal_strlit("DATA_ICON_REQUEST");
    reveal_strlit("DATA_ICON_RESPONSE");
    reveal_strlit("DATA_APP_LIST_REQUEST");
    reveal_strlit("DATA_APP_LIST_RESPONSE");
    reveal_strlit("DATA_MEDIA_CONTROL");
    reveal_strlit("DATA_FTP");
    reveal_strlit("DATA_STATUS");
    reveal_strlit("DATA_APP_LAUNCH");
    reveal_strlit("DATA_UNKNOWN");
    let h = type_data_header(t);
    assert("DATA_NOTIFICATION"@.len() != "DATA_MEDIAPLAY"@.len());
    assert("DATA_NOTIFICATION"@.len() != "DATA_SUPERISLAND"@.len());
    assert("DATA_NOTIFICATION"@.len() != "DATA_CLIPBOARD"@.len());
    assert("DATA_NOTIFICATION"@[5] != "DATA_ICON_REQUEST"@[5]);
    assert("DATA_NOTIFICATION"@.len() != "DATA_ICON_RESPONSE"@.len());
    assert("DATA_NOTIFICATION"@.len() != "DATA_APP_LIST_REQUEST"@.len());
    assert("DATA_NOTIFICATION"@.len() != "DATA_APP_LIST_RESPONSE"@.len());
    assert("DATA_NOTIFICATION"@.len() != "DATA_MEDIA_CONTROL"@.len());
    assert("DATA_NOTIFICATION"@.len() != "DATA_FTP"@.len());
    assert("DATA_NOTIFICATION"@.len() != "DATA_STATUS"@.len());
    assert("DATA_NOTIFICATION"@.len() != "DATA_APP_LAUNCH"@.len());
    assert("DATA_NOTIFICATION"@.len() != "DATA_UNKNOWN"@.len());
    assert("DATA_MEDIAPLAY"@.len() != "DATA_SUPERISLAND"@.len());
    assert("DATA_MEDIAPLAY"@[5] != "DATA_CLIPBOARD"@[5]);
    assert("DATA_MEDIAPLAY"@.len() != "DATA_ICON_REQUEST"@.len());
    assert("DATA_MEDIAPLAY"@.len() != "DATA_ICON_RESPONSE"@.len());
    assert("DATA_MEDIAPLAY"@.len() != "DATA_APP_LIST_REQUEST"@.len());
    assert("DATA_MEDIAPLAY"@.len() != "DATA_APP_LIST_RESPONSE"@.len());
    assert("DATA_MEDIAPLAY"@.len() != "DATA_MEDIA_CONTROL"@.len());
    assert("DATA_MEDIAPLAY"@.len() != "DATA_FTP"@.len());
    assert("DATA_MEDIAPLAY"@.len() != "DATA_STATUS"@.len());
    assert("DATA_MEDIAPLAY"@.len() != "DATA_APP_LAUNCH"@.len());
    assert("DATA_MEDIAPLAY"@.len() != "DATA_UNKNOWN"@.len());
    assert("DATA_SUPERISLAND"@.len() != "DATA_CLIPBOARD"@.len());
    assert("DATA_SUPERISLAND"@.len() != "DATA_ICON_REQUEST"@.len());
    assert("DATA_SUPERISLAND"@.len() != "DATA_ICON_RESPONSE"@.len());
    assert("DATA_SUPERISLAND"@.len() != "DATA_APP_LIST_REQUEST"@.len());
    assert("DATA_SUPERISLAND"@.len() != "DATA_APP_LIST_RESPONSE"@.len());
    assert("DATA_SUPERISLAND"@.len() != "DATA_MEDIA_CONTROL"@.len());
    assert("DATA_SUPERISLAND"@.len() != "DATA_FTP"@.len());
    assert("DATA_SUPERISLAND"@.len() != "DATA_STATUS"@.len());
    assert("DATA_SUPERISLAND"@.len() != "DATA_APP_LAUNCH"@.len());
    assert("DATA_SUPERISLAND"@.len() != "DATA_UNKNOWN"@.len());
    assert("DATA_CLIPBOARD"@.len() != "DATA_ICON_REQUEST"@.len());
    assert("DATA_CLIPBOARD"@.len() != "DATA_ICON_RESPONSE"@.len());
    assert("DATA_CLIPBOARD"@.len() != "DATA_APP_LIST_REQUEST"@.len());
    assert("DATA_CLIPBOARD"@.len() != "DATA_APP_LIST_RESPONSE"@.len());
    assert("DATA_CLIPBOARD"@.len() != "DATA_MEDIA_CONTROL"@.len());
    assert("DATA_CLIPBOARD"@.len() != "DATA_FTP"@.len());
    assert("DATA_CLIPBOARD"@.len() != "DATA_STATUS"@.len());
    assert("DATA_CLIPBOARD"@.len() != "DATA_APP_LAUNCH"@.len());
    assert("DATA_CLIPBOARD"@.len() != "DATA_UNKNOWN"@.len());
    assert("DATA_ICON_REQUEST"@.len() != "DATA_ICON_RESPONSE"@.len());
    assert("DATA_ICON_REQUEST"@.len() != "DATA_APP_LIST_REQUEST"@.len());
    assert("DATA_ICON_REQUEST"@.len() != "DATA_APP_LIST_RESPONSE"@.len());
    assert("DATA_ICON_REQUEST"@.len() != "DATA_MEDIA_CONTROL"@.len());
    assert("DATA_ICON_REQUEST"@.len() != "DATA_FTP"@.len());
    assert("DATA_ICON_REQUEST"@.len() != "DATA_STATUS"@.len());
    assert("DATA_ICON_REQUEST"@.len() != "DATA_APP_LAUNCH"@.len());
    assert("DATA_ICON_REQUEST"@.len() != "DATA_UNKNOWN"@.len());
    assert("DATA_ICON_RESPONSE"@.len() != "DATA_APP_LIST_REQUEST"@.len());
    assert("DATA_ICON_RESPONSE"@.len() != "DATA_APP_LIST_RESPONSE"@.len());
    assert("DATA_ICON_RESPONSE"@[5] != "DATA_MEDIA_CONTROL"@[5]);
    assert("DATA_ICON_RESPONSE"@.len() != "DATA_FTP"@.len());
    assert("DATA_ICON_RESPONSE"@.len() != "DATA_STATUS"@.len());
    assert("DATA_ICON_RESPONSE"@.len() != "DATA_APP_LAUNCH"@.len());
    assert("DATA_ICON_RESPONSE"@.len() != "DATA_UNKNOWN"@.len());
    assert("DATA_APP_LIST_REQUEST"@.len() != "DATA_APP_LIST_RESPONSE"@.len());
    assert("DATA_APP_LIST_REQUEST"@.len() != "DATA_MEDIA_CONTROL"@.len());
    assert("DATA_APP_LIST_REQUEST"@.len() != "DATA_FTP"@.len());
    assert("DATA_APP_LIST_REQUEST"@.len() != "DATA_STATUS"@.len());
    assert("DATA_APP_LIST_REQUEST"@.len() != "DATA_APP_LAUNCH"@.len());
    assert("DATA_APP_LIST_REQUEST"@.len() != "DATA_UNKNOWN"@.len());
    assert("DATA_APP_LIST_RESPONSE"@.len() != "DATA_MEDIA_CONTROL"@.len());
    assert("DATA_APP_LIST_RESPONSE"@.len() != "DATA_FTP"@.len());
    assert("DATA_APP_LIST_RESPONSE"@.len() != "DATA_STATUS"@.len());
    assert("DATA_APP_LIST_RESPONSE"@.len() != "DATA_APP_LAUNCH"@.len());
    assert("DATA_APP_LIST_RESPONSE"@.len() != "DATA_UNKNOWN"@.len());
    assert("DATA_MEDIA_CONTROL"@.len() != "DATA_FTP"@.len());
    assert("DATA_MEDIA_CONTROL"@.len() != "DATA_STATUS"@.len());
    assert("DATA_MEDIA_CONTROL"@.len() != "DATA_APP_LAUNCH"@.len());
    assert("DATA_MEDIA_CONTROL"@.len() != "DATA_UNKNOWN"@.len());
    assert("DATA_FTP"@.len() != "DATA_STATUS"@.len());
    assert("DATA_FTP"@.len() != "DATA_APP_LAUNCH"@.len());
    assert("DATA_FTP"@.len() != "DATA_UNKNOWN"@.len());
    assert("DATA_STATUS"@.len() != "DATA_APP_LAUNCH"@.len());
    assert("DATA_STATUS"@.len() != "DATA_UNKNOWN"@.len());
    assert("DATA_APP_LAUNCH"@.len() != "DATA_UNKNOWN"@.len());
}

// ===================== JSON text =====================

/// Lower-case hexadecimal digit of `n` (below 16).
pub open spec fn hex_digit(n: u32) -> char {
    if n < 10 { (48 + n) as char } else { (87 + n) as char }
}

/// How serde_json writes one character inside a string literal: `"` and `\` and the
/// control characters below U+0020 are escaped (`\b \t \n \f \r` where they have a short
/// form, else `\u00XX`); every other character is written as it is.
pub open spec fn json_escape_char(c: char) -> Seq<char> {
    if c == '"' {
        seq!['\\', '"']
    } else if c == '\\' {
        seq!['\\', '\\']
    } else if c == '\u{8}' {
        seq!['\\', 'b']
    } else if c == '\t' {
        seq!['\\', 't']
    } else if c == '\n' {
        seq!['\\', 'n']
    } else if c == '\u{c}' {
        seq!['\\', 'f']
    } else if c == '\r' {
        seq!['\\', 'r']
    } else if (c as u32) < 0x20 {
        seq!['\\', 'u', '0', '0', hex_digit((c as u32) / 16), hex_digit((c as u32) % 16)]
    } else {
        seq![c]
    }
}

/// The escaped characters of `s`.
pub open spec fn json_escaped(s: Seq<char>) -> Seq<char>
    decreases s.len(),
{
    if s.len() == 0 {
        Seq::empty()
    } else {
        json_escaped(s.drop_last()) + json_escape_char(s.last())
    }
}

/// What `serde_json::to_string` gives for a `&str` (`format_escaped_str`): the escaped
/// characters between double quotes.
#[verifier::opaque]
pub open spec fn json_string(s: Seq<char>) -> Seq<char> {
    seq!['"'] + json_escaped(s) + seq!['"']
}

/// Wraps `serde_json::to_string::<str>`, which writes `s` as a quoted JSON string literal.
#[verifier::external_body]
pub(crate) fn json_quote(s: &str) -> (r: String)
    ensures
        r@ == json_string(s@),
{
    match serde_json::to_string(s) {
        Ok(t) => t,
        Err(_) => String::new(),
    }
}

/// Appends `"key":` to `out`.
pub fn push_json_key(out: &mut String, key: &str)
    ensures
        final(out)@ == old(out)@ + json_string(key@) + seq![':'],
{
    let k = json_quote(key);
    push_str(out, k.as_str());
    let ghost mid = out@;
    push_char(out, ':');
    assert(mid.push(':') == mid + seq![':']);
}

/// Appends `"key":"value"` to `out`.
pub fn push_json_str_field(out: &mut String, key: &str, value: &str)
    ensures
        final(out)@ == old(out)@ + json_string(key@) + seq![':'] + json_string(value@),
{
    push_json_key(out, key);
    let v = json_quote(value);
    push_str(out, v.as_str());
}

/// Appends `"key":<integer>` to `out`.
pub fn push_json_int_field(out: &mut String, key: &str, value: i64)
    ensures
        final(out)@ == old(out)@ + json_string(key@) + seq![':'] + dec_int(value as int),
{
    push_json_key(out, key);
    push_int(out, value);
}

// ===================== frames with text payloads =====================

/// Handshake announced over TCP (JSON payload of a `HANDSHAKE` frame).
#[derive(Debug, Clone)]
pub struct ProtoHandshake {
    pub uuid: String,
    pub pub_key: String,
    pub device_name: String,
    pub device_type: String,
    pub battery: i32,
    pub feature_flag: Option<Vec<String>>,
    pub core_version: Option<String>,
}

/// JSON text of a list of strings.
pub open spec fn json_string_array(items: Seq<Seq<char>>) -> Seq<char>
    decreases items.len(),
{
    if items.len() == 0 {
        "[]"@
    } else {
        json_array_body(items) + seq![']']
    }
}

/// `[` and the comma-separated quoted items (without the closing bracket).
pub open spec fn json_array_body(items: Seq<Seq<char>>) -> Seq<char>
    decreases items.len(),
{
    if items.len() == 0 {
        seq!['[']
    } else if items.len() == 1 {
        seq!['['] + json_string(items[0])
    } else {
        json_array_body(items.drop_last()) + seq![','] + json_string(items.last())
    }
}

/// Appends the JSON list of `items`.
pub fn push_json_str_array(out: &mut String, items: &[&str])
    ensures
        final(out)@ == old(out)@ + json_string_array(items@.map_values(|s: &str| s@)),
{
    let ghost views = items@.map_values(|s: &str| s@);
    let ghost start = out@;
    if items.len() == 0 {
        push_str(out, "[]");
        return;
    }
    push_char(out, '[');
    assert(start.push('[') == start + seq!['[']);
    let mut i: usize = 0;
    while i < items.len()
        invariant
            i <= items.len(),
            items.len() > 0,
            views == items@.map_values(|s: &str| s@),
            out@ == start + json_array_body(views.take(i as int)),
        decreases items.len() - i,
    {
        let ghost before = out@;
        if i > 0 {
            push_char(out, ',');
            assert(before.push(',') == before + seq![',']);
        }
        let q = json_quote(items[i]);
        push_str(out, q.as_str());
        i = i + 1;
        assert(views.take(i as int).drop_last() == views.take(i - 1));
        assert(views.take(i as int).last() == items@[i - 1]@);
        if i == 1 {
            assert(views.take(1) == seq![views[0]]);
        }
    }
    assert(views.take(items.len() as int) == views);
    let ghost before_close = out@;
    push_char(out, ']');
    assert(before_close.push(']') == before_close + seq![']']);
}

/// JSON payload of a handshake frame.
pub open spec fn handshake_json(
    uuid: Seq<char>,
    pub_key: Seq<char>,
    device_name: Seq<char>,
    device_type: Seq<char>,
    battery: i32,
    flags: Seq<Seq<char>>,
) -> Seq<char> {
    seq!['{'] + json_string("uuid"@) + seq![':'] + json_string(uuid)
        + seq![','] + json_string("pubKey"@) + seq![':'] + json_string(pub_key)
        + seq![','] + json_string("deviceName"@) + seq![':'] + json_string(device_name)
        + seq![','] + json_string("deviceType"@) + seq![':'] + json_string(device_type)
        + seq![','] + json_string("battery"@) + seq![':'] + dec_int(battery as int)
        + seq![','] + json_string("featureFlag"@) + seq![':'] + json_string_array(flags)
        + seq![','] + json_string("coreVersion"@) + seq![':'] + json_string(CORE_VERSION@)
        + seq!['}']
}

/// Encodes a `HANDSHAKE` frame; its JSON names this core's version.
pub fn encode_handshake_frame(
    uuid: &str,
    pub_key: &str,
    device_name: &str,
    device_type: &str,
    battery: i32,
    feature_flag: &[&str],
) -> (r: Vec<u8>)
    ensures
        r@ == frame_bytes(
            MessageType::HANDSHAKE,
            encode_utf8(handshake_json(uuid@, pub_key@, device_name@, device_type@, battery,
                feature_flag@.map_values(|s: &str| s@))),
        ),
{
    let mut s = String::new();
    push_char(&mut s, '{');
    push_json_str_field(&mut s, "uuid", uuid);
    push_char(&mut s, ',');
    push_json_str_field(&mut s, "pubKey", pub_key);
    push_char(&mut s, ',');
    push_json_str_field(&mut s, "deviceName", device_name);
    push_char(&mut s, ',');
    push_json_str_field(&mut s, "deviceType", device_type);
    push_char(&mut s, ',');
    push_json_int_field(&mut s, "battery", battery as i64);
    push_char(&mut s, ',');
    push_json_key(&mut s, "featureFlag");
    push_json_str_array(&mut s, feature_flag);
    push_char(&mut s, ',');
    push_json_str_field(&mut s, "coreVersion", CORE_VERSION);
    push_char(&mut s, '}');
    assert(s@ =~= handshake_json(uuid@, pub_key@, device_name@, device_type@, battery,
        feature_flag@.map_values(|s: &str| s@)));
    let bytes = text_bytes(s.as_str());
    write_frame(MessageType::HANDSHAKE, bytes.as_slice())
}

/// Heartbeat announced over TCP (JSON payload of a `HEARTBEAT` frame).
#[derive(Debug, Clone)]
pub struct HeartbeatPayload {
    pub uuid: String,
    pub name: String,
    pub port: u16,
    pub battery: i32,
    pub device_type: String,
}

/// JSON payload of a heartbeat frame.
pub open spec fn heartbeat_json(uuid: Seq<char>, name: Seq<char>, port: u16, battery: i32, device_type: Seq<char>) -> Seq<char> {
    seq!['{'] + json_string("uuid"@) + seq![':'] + json_string(uuid)
        + seq![','] + json_string("name"@) + seq![':'] + json_string(name)
        + seq![','] + json_string("port"@) + seq![':'] + dec_int(port as int)
        + seq![','] + json_string("battery"@) + seq![':'] + dec_int(battery as int)
        + seq![','] + json_string("deviceType"@) + seq![':'] + json_string(device_type)
        + seq!['}']
}

/// Encodes a `HEARTBEAT` frame.
pub fn encode_heartbeat_frame(uuid: &str, name: &str, port: u16, battery: i32, device_type: &str) -> (r: Vec<u8>)
    ensures
        r@ == frame_bytes(MessageType::HEARTBEAT, encode_utf8(heartbeat_json(uuid@, name@, port, battery, device_type@))),
{
    let mut s = String::new();
    push_char(&mut s, '{');
    push_json_str_field(&mut s, "uuid", uuid);
    push_char(&mut s, ',');
    push_json_str_field(&mut s, "name", name);
    push_char(&mut s, ',');
    push_json_int_field(&mut s, "port", port as i64);
    push_char(&mut s, ',');
    push_json_int_field(&mut s, "battery", battery as i64);
    push_char(&mut s, ',');
    push_json_str_field(&mut s, "deviceType", device_type);
    push_char(&mut s, '}');
    assert(s@ =~= heartbeat_json(uuid@, name@, port, battery, device_type@));
    let bytes = text_bytes(s.as_str());
    write_frame(MessageType::HEARTBEAT, bytes.as_slice())
}

/// Text payload of a DATA frame: `header:uuid:version:pub_key:encrypted`.
pub open spec fn data_payload_text(header: Seq<char>, uuid: Seq<char>, pub_key: Seq<char>, enc: Seq<char>) -> Seq<char> {
    header + seq![':'] + uuid + seq![':'] + CORE_VERSION@ + seq![':'] + pub_key + seq![':'] + enc
}

/// Encodes a DATA frame (payload already encrypted); the header text is kept as given.
pub fn encode_data_frame(
    header: &str,
    msg_type: u8,
    local_uuid: &str,
    local_pub_key: &str,
    encrypted_payload: &str,
) -> (r: Vec<u8>)
    ensures
        r@ == frame_bytes(msg_type, encode_utf8(data_payload_text(header@, local_uuid@, local_pub_key@, encrypted_payload@))),
{
    let mut s = String::new();
    push_str(&mut s, header);
    push_char(&mut s, ':');
    push_str(&mut s, local_uuid);
    push_char(&mut s, ':');
    push_str(&mut s, CORE_VERSION);
    push_char(&mut s, ':');
    push_str(&mut s, local_pub_key);
    push_char(&mut s, ':');
    push_str(&mut s, encrypted_payload);
    assert(s@ =~= data_payload_text(header@, local_uuid@, local_pub_key@, encrypted_payload@));
    let bytes = text_bytes(s.as_str());
    write_frame(msg_type, bytes.as_slice())
}

/// Encodes a pairing frame carrying a text payload.
pub fn encode_pairing_frame(msg_type: u8, payload: &str) -> (r: Vec<u8>)
    ensures
        r@ == frame_bytes(msg_type, encode_utf8(payload@)),
{
    let bytes = text_bytes(payload);
    write_frame(msg_type, bytes.as_slice())
}

/// Encodes a control frame (ACCEPT/REJECT/ACK) carrying a uuid.
pub fn encode_control_frame(msg_type: u8, uuid: &str) -> (r: Vec<u8>)
    ensures
        r@ == frame_bytes(msg_type, encode_utf8(uuid@)),
{
    let bytes = text_bytes(uuid);
    write_frame(msg_type, bytes.as_slice())
}

} // verus!
