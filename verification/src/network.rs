//! The TCP server's bookkeeping: who a connection belongs to (read from its first frame) and
//! the table of live sessions, one per device, each tagged with the connection that owns it.
use vstd::prelude::*;
use vstd::string::*;
use vstd::utf8::*;
use crate::context::BroadcastInfo;
use crate::protocol::binary_codec::{encode_pairing_frame, frame_bytes};
use crate::protocol::codec::{discovery_text, encode_discovery_response, DEFAULT_TCP_PORT};
use crate::protocol::header::MessageType;
use crate::protocol::json_frames::{decode_handshake_frame, decode_heartbeat_frame, handshake_spec, heartbeat_spec};
use crate::text::{owned, split, split_seq, str_eq, string_of, trim, trim_seq, utf8_text};
use crate::vecmap::{find_index, has_key, last_value, lemma_insert_key, insert_key, remove_key, without_key};

verus! {

/// The device a connection belongs to, read from its first frame: the id of a handshake or a
/// heartbeat, the second field of a DATA frame, the first field of a pairing frame, the
/// trimmed text of an `ACCEPT` / `REJECT`. `None` when the frame does not say (or says an
/// empty id where one is required).
pub open spec fn first_frame_peer(t: u8, payload: Seq<u8>) -> Option<Seq<char>> {
    if t == MessageType::HANDSHAKE {
        match handshake_spec(payload) {
            Some(h) => Some(h.0),
            None => None,
        }
    } else if t == MessageType::HEARTBEAT {
        match heartbeat_spec(payload) {
            Some(h) => Some(h.0),
            None => None,
        }
    } else if !valid_utf8(payload) {
        None
    } else {
        let s = decode_utf8(payload);
        if 10 <= t && t <= 200 {
            if split_seq(s, ':').len() >= 2 { Some(split_seq(s, ':')[1]) } else { None }
        } else if t == MessageType::PAIRING_INIT || t == MessageType::PAIRING_RESP {
            if split_seq(s, ':')[0].len() > 0 { Some(split_seq(s, ':')[0]) } else { None }
        } else if t == MessageType::ACCEPT || t == MessageType::REJECT {
            if trim_seq(s).len() > 0 { Some(trim_seq(s)) } else { None }
        } else {
            None
        }
    }
}

/// Reads the device a connection belongs to from its first frame.
pub fn peer_of_first_frame(t: u8, payload: &[u8]) -> (r: Option<String>)
    ensures
        match r {
            Some(u) => first_frame_peer(t, payload@) == Some(u@),
            None => first_frame_peer(t, payload@) is None,
        },
{
    if t == MessageType::HANDSHAKE {
        return match decode_handshake_frame(payload) {
            Some(h) => Some(h.uuid),
            None => None,
        };
    }
    if t == MessageType::HEARTBEAT {
        return match decode_heartbeat_frame(payload) {
            Some(h) => Some(h.uuid),
            None => None,
        };
    }
    let s = match utf8_text(payload) {
        Some(s) => s,
        None => return None,
    };
    if 10 <= t && t <= 200 {
        let parts = split(s.as_str(), ':');
        if parts.len() >= 2 {
            Some(owned(parts[1].as_str()))
        } else {
            None
        }
    } else if t == MessageType::PAIRING_INIT || t == MessageType::PAIRING_RESP {
        let parts = split(s.as_str(), ':');
        proof {
            crate::text::lemma_split_nonempty(s@, ':');
        }
        if !parts[0].as_str().is_empty() {
            Some(owned(parts[0].as_str()))
        } else {
            None
        }
    } else if t == MessageType::ACCEPT || t == MessageType::REJECT {
        let c = trim(s.as_str());
        if c.len() > 0 {
            Some(string_of(c.as_slice()))
        } else {
            None
        }
    } else {
        None
    }
}

/// What the server does with the first frame of a connection.
pub enum FirstFrameAction {
    /// A discovery request: send this `DISCOVERY_RESPONSE` frame, then close.
    AnswerDiscovery(Vec<u8>),
    /// Close without an answer (a discovery request that is not UTF-8, or that arrives
    /// before the local broadcast information is set).
    Close,
    /// The connection is the session of this device.
    Peer(String),
    /// The frame names no device: close.
    NoPeer,
}

/// The `DISCOVERY_RESPONSE` frame announcing `info` on the default TCP port.
pub open spec fn discovery_response_frame(info: BroadcastInfo) -> Seq<u8> {
    frame_bytes(MessageType::DISCOVERY_RESPONSE, encode_utf8(discovery_text(
        info.uuid@, info.name_b64@, DEFAULT_TCP_PORT, info.battery, info.device_type@)))
}

/// Decides what to do with the first frame (`t`, `payload`) of a connection, with the local
/// broadcast information `info`: a UTF-8 discovery request is answered with the local
/// discovery response when `info` is set, other discovery requests just close; any other frame
/// names the device the connection belongs to, or closes it.
pub fn first_frame_action(t: u8, payload: &[u8], info: &Option<BroadcastInfo>) -> (r: FirstFrameAction)
    ensures
        t == MessageType::DISCOVERY_REQUEST ==> match (valid_utf8(payload@), info) {
            (true, Some(b)) => r matches FirstFrameAction::AnswerDiscovery(f) && f@ == discovery_response_frame(*b),
            _ => r is Close,
        },
        t != MessageType::DISCOVERY_REQUEST ==> match first_frame_peer(t, payload@) {
            Some(u) => r matches FirstFrameAction::Peer(p) && p@ == u,
            None => r is NoPeer,
        },
{
    if t == MessageType::DISCOVERY_REQUEST {
        if utf8_text(payload).is_none() {
            return FirstFrameAction::Close;
        }
        return match info {
            Some(b) => {
                let text = encode_discovery_response(b.uuid.as_str(), b.name_b64.as_str(), DEFAULT_TCP_PORT, b.battery, b.device_type.as_str());
                FirstFrameAction::AnswerDiscovery(encode_pairing_frame(MessageType::DISCOVERY_RESPONSE, text.as_str()))
            },
            None => FirstFrameAction::Close,
        };
    }
    match peer_of_first_frame(t, payload) {
        Some(u) => FirstFrameAction::Peer(u),
        None => FirstFrameAction::NoPeer,
    }
}

/// A live session: the peer's address and the connection that owns it.
pub struct SessionInfo {
    pub ip: String,
    pub conn_id: u64,
}

/// Live sessions by device, and the next connection id.
pub struct SessionTable {
    sessions: Vec<(String, SessionInfo)>,
    next_conn_id: u64,
}

impl SessionTable {
    /// Sessions by device.
    pub closed spec fn sessions_view(&self) -> Seq<(String, SessionInfo)> {
        self.sessions@
    }

    /// The id the next connection gets.
    pub closed spec fn next_id(&self) -> u64 {
        self.next_conn_id
    }

    /// No session; connection ids start at 1.
    pub fn new() -> (r: SessionTable)
        ensures
            r.sessions_view().len() == 0,
            r.next_id() == 1,
    {
        SessionTable { sessions: Vec::new(), next_conn_id: 1 }
    }

    /// A connection from `ip` is now the session of `uuid` (replacing an older one); answers
    /// its connection id. Ids count up and wrap like the atomic counter they stand for.
    pub fn register(&mut self, uuid: &str, ip: &str) -> (r: u64)
        ensures
            r == old(self).next_id(),
            final(self).next_id() == old(self).next_id().wrapping_add(1),
            last_value(final(self).sessions_view(), uuid@) matches Some(s) && s.ip@ == ip@ && s.conn_id == r,
            forall|o: Seq<char>| o != uuid@ ==> #[trigger] last_value(final(self).sessions_view(), o)
                == last_value(old(self).sessions_view(), o),
    {
        let id = self.next_conn_id;
        self.next_conn_id = self.next_conn_id.wrapping_add(1);
        let ghost before = self.sessions@;
        let k = owned(uuid);
        let s = SessionInfo { ip: owned(ip), conn_id: id };
        insert_key(&mut self.sessions, k, s);
        proof {
            let kk: String = self.sessions@.last().0;
            let ss: SessionInfo = self.sessions@.last().1;
            lemma_insert_key(before, kk, ss, uuid@);
            assert forall|o: Seq<char>| o != uuid@ implies #[trigger] last_value(self.sessions@, o) == last_value(before, o) by {
                lemma_insert_key(before, kk, ss, o);
            }
        }
        id
    }

    /// Connection `conn_id` of `uuid` ended: its session is removed only if it still owns it
    /// (a reconnection may have replaced it). Answers whether it did, i.e. whether the
    /// disconnection is reported.
    pub fn release(&mut self, uuid: &str, conn_id: u64) -> (r: bool)
        ensures
            r == (last_value(old(self).sessions_view(), uuid@) matches Some(s) && s.conn_id == conn_id),
            r ==> final(self).sessions_view() == without_key(old(self).sessions_view(), uuid@),
            !r ==> final(self).sessions_view() == old(self).sessions_view(),
            final(self).next_id() == old(self).next_id(),
    {
        let owned_by = match find_index(&self.sessions, uuid) {
            Some(i) => self.sessions[i].1.conn_id == conn_id,
            None => false,
        };
        if owned_by {
            remove_key(&mut self.sessions, uuid);
        }
        owned_by
    }

    /// Forgets the session of `uuid`.
    pub fn remove_session(&mut self, uuid: &str)
        ensures
            final(self).sessions_view() == without_key(old(self).sessions_view(), uuid@),
            final(self).next_id() == old(self).next_id(),
    {
        remove_key(&mut self.sessions, uuid);
    }

    /// Whether `uuid` has a session.
    pub fn is_connected(&self, uuid: &str) -> (r: bool)
        ensures
            r == has_key(self.sessions_view(), uuid@),
    {
        crate::vecmap::contains_key(&self.sessions, uuid)
    }

    /// The connection id owning the session of `uuid`.
    pub fn conn_of(&self, uuid: &str) -> (r: Option<u64>)
        ensures
            match last_value(self.sessions_view(), uuid@) {
                Some(s) => r == Some(s.conn_id),
                None => r is None,
            },
    {
        match find_index(&self.sessions, uuid) {
            Some(i) => Some(self.sessions[i].1.conn_id),
            None => None,
        }
    }

    /// The number of sessions (entries of the table, one per device).
    pub fn connected_count(&self) -> (r: usize)
        ensures
            r == self.sessions_view().len(),
    {
        self.sessions.len()
    }
}

/// A connection from a device is this device talking to itself (its id is the local one).
pub fn is_self_connection(local_uuid: &str, peer: &str) -> (r: bool)
    ensures
        r == (local_uuid@.len() > 0 && peer@ == local_uuid@),
{
    !local_uuid.is_empty() && str_eq(peer, local_uuid)
}

/// What a connection attempt's answer means.
#[derive(Debug, Clone, Copy, PartialEq, Eq, Structural)]
pub enum ConnectStep {
    /// An `ACCEPT` came: connected.
    Accepted,
    /// A `REJECT` came: refused, no retry.
    Rejected,
    /// No answer or another frame: try again (while attempts remain).
    Retry,
}

/// Number of handshake attempts when connecting to a device.
pub const CONNECT_ATTEMPTS: u32 = 3;

/// The meaning of the answer (its frame type, if any) to a connection handshake.
pub fn connect_step(answer: Option<u8>) -> (r: ConnectStep)
    ensures
        r == match answer {
            Some(t) => if t == MessageType::ACCEPT {
                ConnectStep::Accepted
            } else if t == MessageType::REJECT {
                ConnectStep::Rejected
            } else {
                ConnectStep::Retry
            },
            None => ConnectStep::Retry,
        },
{
    match answer {
        Some(t) => {
            if t == MessageType::ACCEPT {
                ConnectStep::Accepted
            } else if t == MessageType::REJECT {
                ConnectStep::Rejected
            } else {
                ConnectStep::Retry
            }
        },
        None => ConnectStep::Retry,
    }
}

} // verus!
