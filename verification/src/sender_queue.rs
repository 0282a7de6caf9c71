//! Outgoing message queue: latest-only coalescing of media states, one send at a time per
//! device, back-off after failures and bounded retries.
//!
//! The queue is a state machine: `enqueue` adds work, `select_next` hands out the next item
//! that may be sent now, and `complete` records how the send went. The caller runs the
//! sends and supplies the clock (milliseconds).
use vstd::prelude::*;
use vstd::string::*;
use vstd::utf8::*;
use crate::crypto::aes::{decryption_of, encrypt_with_aad, is_encryption_of, law_encryption_decrypts, GCM_MAX_LEN};
use crate::crypto::keys::{CryptoState, session_key_of};
use crate::processing::data_aad_spec;
use crate::protocol::binary_codec::{
    data_header_type, data_payload_text, frame_bytes, law_frame_roundtrip, read_frame_spec, MAX_FRAME_LEN,
};
use crate::protocol::inbound::{data_fields_spec, law_data_roundtrip};
use crate::protocol::version::CORE_VERSION;
use crate::protocol::codec::{encode_data_message, DEFAULT_TCP_PORT};
use crate::protocol::version::data_aad;
use crate::text::{contains_seq, push_char, push_str, str_contains, str_eq};
use crate::dedup::DedupState;
use crate::timestamp::{inject_ts, inject_ts_spec};
use crate::vecmap::{
    contains_key, has_key, insert_key, last_value, lookup, remove_key, retain_vec, without_key,
};

verus! {

/// One message waiting to be sent.
pub struct SendItem {
    pub device_uuid: String,
    pub header: String,
    pub plaintext: String,
    pub dedup_key: Option<String>,
    pub retries_left: u32,
    /// Coalescing key (`"<device_uuid>|<header>"` for media states): a full state replaces
    /// the queued items with the same key.
    pub coalesce_key: Option<String>,
}

/// How a finished send was handled.
#[derive(Debug, Clone, Copy, PartialEq, Eq, Structural)]
pub enum SendOutcome {
    /// Delivered.
    Sent,
    /// Failed and put back in the queue with one retry less.
    Requeued,
    /// Failed with no retry left.
    Dropped,
}

/// The queue and its per-device bookkeeping.
pub struct SenderQueue {
    items: Vec<SendItem>,
    /// dedup key -> time the send started.
    in_flight: Vec<(String, u64)>,
    /// device -> time its current send started.
    busy_devices: Vec<(String, u64)>,
    /// device -> time its cool-down ends.
    device_cooldown: Vec<(String, u64)>,
    /// device -> consecutive failures.
    device_fail_streak: Vec<(String, u32)>,
    running: bool,
    /// Sends handed out and not yet completed.
    active: usize,
}

/// Headers of the high-frequency media states.
pub open spec fn is_media_header_spec(h: Seq<char>) -> bool {
    h == "DATA_MEDIAPLAY"@ || h == "DATA_SUPERISLAND"@
}

/// A delta payload (holds `"changes"`) depends on what came before it.
pub open spec fn is_delta_spec(t: Seq<char>) -> bool {
    contains_seq(t, "\"changes\""@)
}

/// A media end packet ends a session and must arrive.
pub open spec fn is_end_spec(t: Seq<char>) -> bool {
    contains_seq(t, "__END__"@) || contains_seq(t, "\"terminate\":true"@)
}

/// The coalescing key of a media state.
pub open spec fn media_key(uuid: Seq<char>, header: Seq<char>) -> Seq<char> {
    uuid + seq!['|'] + header
}

/// Retries given to an item on entry: one for a media state that is not an end packet,
/// otherwise the maximum.
pub open spec fn initial_retries(header: Seq<char>, text: Seq<char>) -> u32 {
    if is_media_header_spec(header) && !is_end_spec(text) {
        1
    } else {
        3
    }
}

/// `p` is `item` as `enqueue` stores it.
pub open spec fn prepared(item: SendItem, p: SendItem) -> bool {
    &&& p.device_uuid == item.device_uuid
    &&& p.header == item.header
    &&& p.plaintext == item.plaintext
    &&& p.dedup_key == item.dedup_key
    &&& p.retries_left == initial_retries(item.header@, item.plaintext@)
    &&& if is_media_header_spec(item.header@) && item.coalesce_key is None {
        p.coalesce_key is Some && p.coalesce_key->0@ == media_key(item.device_uuid@, item.header@)
    } else {
        p.coalesce_key == item.coalesce_key
    }
}

/// Predicate: an item does not carry coalescing key `k`.
pub open spec fn other_key(k: Seq<char>) -> spec_fn(SendItem) -> bool {
    |it: SendItem| !(it.coalesce_key is Some && it.coalesce_key->0@ == k)
}

/// The queued items that stay when `p` enters: a full (non-delta) item with a coalescing
/// key removes every queued item with the same key.
pub open spec fn kept_for(items: Seq<SendItem>, p: SendItem) -> Seq<SendItem> {
    match p.coalesce_key {
        Some(k) => if is_delta_spec(p.plaintext@) {
            items
        } else {
            items.filter(other_key(k@))
        },
        None => items,
    }
}

/// Milliseconds from `since` to `now` (zero if `since` is later).
pub open spec fn age(now: u64, since: u64) -> int {
    if now >= since {
        now - since
    } else {
        0
    }
}

/// Predicate: an entry started less than `limit` ms before `now`.
pub open spec fn younger_than(now: u64, limit: u64) -> spec_fn((String, u64)) -> bool {
    |e: (String, u64)| age(now, e.1) < limit
}

/// Predicate: a cool-down entry ends after `now`.
pub open spec fn ends_after(now: u64) -> spec_fn((String, u64)) -> bool {
    |e: (String, u64)| e.1 > now
}

/// Whether an item may be sent given the (pruned) tables: its dedup key is not in flight,
/// and its device is neither busy nor cooling down.
pub open spec fn eligible(
    it: SendItem,
    in_flight: Seq<(String, u64)>,
    busy: Seq<(String, u64)>,
    cooldown: Seq<(String, u64)>,
) -> bool {
    &&& match it.dedup_key {
        Some(k) => k@.len() == 0 || !has_key(in_flight, k@),
        None => true,
    }
    &&& !has_key(busy, it.device_uuid@)
    &&& !has_key(cooldown, it.device_uuid@)
}

/// Cool-down in ms after the `streak`-th consecutive failure: one second per failure, at most
/// five.
pub open spec fn cooldown_ms(streak: u32) -> u64 {
    if streak < 5 {
        (streak * 1000) as u64
    } else {
        5000
    }
}

/// Failure streak of device `k` after one more failure.
pub open spec fn next_streak(m: Seq<(String, u32)>, k: Seq<char>) -> u32 {
    match last_value(m, k) {
        Some(v) => if v < u32::MAX { (v + 1) as u32 } else { v },
        None => 1,
    }
}

/// `item` with `n` retries left.
pub open spec fn with_retries(item: SendItem, n: u32) -> SendItem {
    SendItem { retries_left: n, ..item }
}

impl SendItem {
    /// A copy of the item.
    pub fn duplicate(&self) -> (r: SendItem)
        ensures
            r == *self,
    {
        SendItem {
            device_uuid: self.device_uuid.clone(),
            header: self.header.clone(),
            plaintext: self.plaintext.clone(),
            dedup_key: match &self.dedup_key {
                Some(k) => Some(k.clone()),
                None => None,
            },
            retries_left: self.retries_left,
            coalesce_key: match &self.coalesce_key {
                Some(k) => Some(k.clone()),
                None => None,
            },
        }
    }
}

impl SenderQueue {
    pub const MAX_CONCURRENT: usize = 5;
    pub const MAX_RETRIES: u32 = 3;
    /// Connect time-out of media sends (ms): a stale state is not worth waiting for.
    pub const MEDIA_TIMEOUT_MS: u32 = 800;
    /// Connect time-out of other sends (ms).
    pub const DEFAULT_TIMEOUT_MS: u32 = 3000;
    /// Upper bound of the failure cool-down (s).
    pub const MAX_COOLDOWN_SECS: u64 = 5;

    /// The queued items, oldest first.
    pub closed spec fn queued(&self) -> Seq<SendItem> {
        self.items@
    }

    /// dedup key -> start time of the sends in flight.
    pub closed spec fn in_flight_table(&self) -> Seq<(String, u64)> {
        self.in_flight@
    }

    /// device -> start time of its current send.
    pub closed spec fn busy_table(&self) -> Seq<(String, u64)> {
        self.busy_devices@
    }

    /// device -> end of its cool-down.
    pub closed spec fn cooldown_table(&self) -> Seq<(String, u64)> {
        self.device_cooldown@
    }

    /// device -> consecutive failures.
    pub closed spec fn streak_table(&self) -> Seq<(String, u32)> {
        self.device_fail_streak@
    }

    /// Whether the worker should keep running.
    pub closed spec fn is_running_spec(&self) -> bool {
        self.running
    }

    /// Sends handed out and not completed.
    pub closed spec fn active_spec(&self) -> nat {
        self.active as nat
    }

    /// An empty, running queue.
    pub fn new() -> (r: SenderQueue)
        ensures
            r.queued().len() == 0,
            r.in_flight_table().len() == 0,
            r.busy_table().len() == 0,
            r.cooldown_table().len() == 0,
            r.streak_table().len() == 0,
            r.is_running_spec(),
            r.active_spec() == 0,
    {
        SenderQueue {
            items: Vec::new(),
            in_flight: Vec::new(),
            busy_devices: Vec::new(),
            device_cooldown: Vec::new(),
            device_fail_streak: Vec::new(),
            running: true,
            active: 0,
        }
    }

    /// Whether a header names a media state (`DATA_MEDIAPLAY`, `DATA_SUPERISLAND`).
    pub fn is_media_header(header: &str) -> (r: bool)
        ensures
            r == is_media_header_spec(header@),
    {
        str_eq(header, "DATA_MEDIAPLAY") || str_eq(header, "DATA_SUPERISLAND")
    }

    /// Whether a payload is a delta (holds `"changes"`).
    pub fn is_delta_payload(plaintext: &str) -> (r: bool)
        ensures
            r == is_delta_spec(plaintext@),
    {
        str_contains(plaintext, "\"changes\"")
    }

    /// Whether a payload ends a media session (`__END__` or `"terminate":true`).
    pub fn is_media_end_packet(plaintext: &str) -> (r: bool)
        ensures
            r == is_end_spec(plaintext@),
    {
        str_contains(plaintext, "__END__") || str_contains(plaintext, "\"terminate\":true")
    }

    /// Connect time-out for a send of this header: short for media states.
    pub fn send_timeout_ms(header: &str) -> (r: u32)
        ensures
            r == (if is_media_header_spec(header@) { 800u32 } else { 3000u32 }),
    {
        if Self::is_media_header(header) {
            Self::MEDIA_TIMEOUT_MS
        } else {
            Self::DEFAULT_TIMEOUT_MS
        }
    }

    /// Adds an item. Its retries are set (one for a non-final media state, three otherwise);
    /// a media state without coalescing key gets `"<device>|<header>"`; a full item with a
    /// coalescing key first removes the queued items with that key.
    pub fn enqueue(&mut self, item: SendItem)
        ensures
            final(self).queued().len() > 0,
            prepared(item, final(self).queued().last()),
            final(self).queued().drop_last() == kept_for(old(self).queued(), final(self).queued().last()),
            final(self).in_flight_table() == old(self).in_flight_table(),
            final(self).busy_table() == old(self).busy_table(),
            final(self).cooldown_table() == old(self).cooldown_table(),
            final(self).streak_table() == old(self).streak_table(),
            final(self).is_running_spec() == old(self).is_running_spec(),
            final(self).active_spec() == old(self).active_spec(),
    {
        let mut item = item;
        let ghost orig = item;
        let is_media = Self::is_media_header(item.header.as_str());
        let is_end = is_media && Self::is_media_end_packet(item.plaintext.as_str());
        item.retries_left = if is_media && !is_end { 1 } else { Self::MAX_RETRIES };
        if is_media && item.coalesce_key.is_none() {
            let mut key = String::new();
            push_str(&mut key, item.device_uuid.as_str());
            push_char(&mut key, '|');
            push_str(&mut key, item.header.as_str());
            assert(key@ =~= media_key(item.device_uuid@, item.header@));
            item.coalesce_key = Some(key);
        }
        let ghost old_items = self.items@;
        let delta = Self::is_delta_payload(item.plaintext.as_str());
        match &item.coalesce_key {
            Some(key) => {
                if !delta {
                    let keep = |it: &SendItem| -> (b: bool)
                        ensures
                            b == other_key(key@)(*it),
                        {
                            match &it.coalesce_key {
                                Some(c) => !str_eq(c.as_str(), key.as_str()),
                                None => true,
                            }
                        };
                    retain_vec(&mut self.items, keep, Ghost(other_key(key@)));
                }
            },
            None => {},
        }
        assert(self.items@ == kept_for(old_items, item));
        self.items.push(item);
        assert(self.items@.drop_last() =~= kept_for(old_items, item));
    }

    /// Whether `it` may be sent now, given the current tables.
    fn eligible_now(&self, it: &SendItem) -> (r: bool)
        ensures
            r == eligible(*it, self.in_flight@, self.busy_devices@, self.device_cooldown@),
    {
        let key_free = match &it.dedup_key {
            Some(k) => k.as_str().is_empty() || !contains_key(&self.in_flight, k.as_str()),
            None => true,
        };
        key_free && !contains_key(&self.busy_devices, it.device_uuid.as_str())
            && !contains_key(&self.device_cooldown, it.device_uuid.as_str())
    }

    /// Index of the first queued item that may be sent now.
    fn first_eligible(&self) -> (r: Option<usize>)
        ensures
            match r {
                Some(i) => i < self.items@.len()
                    && eligible(self.items@[i as int], self.in_flight@, self.busy_devices@, self.device_cooldown@)
                    && forall|j: int| 0 <= j < i ==> !eligible(#[trigger] self.items@[j], self.in_flight@, self.busy_devices@, self.device_cooldown@),
                None => forall|j: int| 0 <= j < self.items@.len() ==> !eligible(#[trigger] self.items@[j], self.in_flight@, self.busy_devices@, self.device_cooldown@),
            },
    {
        let mut i: usize = 0;
        while i < self.items.len()
            invariant
                i <= self.items@.len(),
                forall|j: int| 0 <= j < i ==> !eligible(#[trigger] self.items@[j], self.in_flight@, self.busy_devices@, self.device_cooldown@),
            decreases self.items.len() - i,
        {
            if self.eligible_now(&self.items[i]) {
                return Some(i);
            }
            i = i + 1;
        }
        None
    }

    /// Hands out the next item to send at time `now_ms`, or `None`.
    ///
    /// Nothing happens while `MAX_CONCURRENT` sends are active. Otherwise the tables are
    /// pruned first (in-flight keys older than 5 s, busy devices older than 30 s, ended
    /// cool-downs), then the first item is taken whose dedup key is not in flight and whose
    /// device is neither busy nor cooling down; its key and device are marked.
    pub fn select_next(&mut self, now_ms: u64) -> (r: Option<SendItem>)
        ensures
            final(self).streak_table() == old(self).streak_table(),
            final(self).is_running_spec() == old(self).is_running_spec(),
            old(self).active_spec() >= 5 ==> r is None && *final(self) == *old(self),
            old(self).active_spec() < 5 ==> {
                let f = old(self).in_flight_table().filter(younger_than(now_ms, 5000));
                let b = old(self).busy_table().filter(younger_than(now_ms, 30000));
                let c = old(self).cooldown_table().filter(ends_after(now_ms));
                &&& final(self).cooldown_table() == c
                &&& match r {
                    None => {
                        &&& forall|j: int| 0 <= j < old(self).queued().len() ==> !eligible(#[trigger] old(self).queued()[j], f, b, c)
                        &&& final(self).queued() == old(self).queued()
                        &&& final(self).in_flight_table() == f
                        &&& final(self).busy_table() == b
                        &&& final(self).active_spec() == old(self).active_spec()
                    },
                    Some(it) => {
                        &&& exists|i: int| {
                            &&& 0 <= i < old(self).queued().len()
                            &&& old(self).queued()[i] == it
                            &&& eligible(it, f, b, c)
                            &&& (forall|j: int| 0 <= j < i ==> !eligible(#[trigger] old(self).queued()[j], f, b, c))
                            &&& final(self).queued() == old(self).queued().remove(i)
                        }
                        &&& final(self).in_flight_table() == (match it.dedup_key {
                            Some(k) => if k@.len() > 0 { f.push((k, now_ms)) } else { f },
                            None => f,
                        })
                        &&& final(self).busy_table() == b.push((it.device_uuid, now_ms))
                        &&& final(self).active_spec() == old(self).active_spec() + 1
                    },
                }
            },
    {
        if self.active >= Self::MAX_CONCURRENT {
            return None;
        }
        let keep_flight = |e: &(String, u64)| -> (b: bool)
            ensures
                b == younger_than(now_ms, 5000)(*e),
            { now_ms.saturating_sub(e.1) < 5000 };
        retain_vec(&mut self.in_flight, keep_flight, Ghost(younger_than(now_ms, 5000)));
        let keep_busy = |e: &(String, u64)| -> (b: bool)
            ensures
                b == younger_than(now_ms, 30000)(*e),
            { now_ms.saturating_sub(e.1) < 30000 };
        retain_vec(&mut self.busy_devices, keep_busy, Ghost(younger_than(now_ms, 30000)));
        let keep_cool = |e: &(String, u64)| -> (b: bool)
            ensures
                b == ends_after(now_ms)(*e),
            { e.1 > now_ms };
        retain_vec(&mut self.device_cooldown, keep_cool, Ghost(ends_after(now_ms)));
        match self.first_eligible() {
            None => None,
            Some(i) => {
                let ghost before = self.items@;
                let it = self.items.remove(i);
                assert(before[i as int] == it);
                match &it.dedup_key {
                    Some(k) => {
                        if !k.as_str().is_empty() {
                            self.in_flight.push((k.clone(), now_ms));
                        }
                    },
                    None => {},
                }
                self.busy_devices.push((it.device_uuid.clone(), now_ms));
                self.active = self.active + 1;
                Some(it)
            },
        }
    }

    /// Records how the send of `item` ended at time `now_ms`.
    ///
    /// The device is no longer busy and the item's dedup key no longer in flight. On success
    /// the device's failure streak and cool-down are cleared. On failure the streak grows by
    /// one and the device cools down for one second per consecutive failure (five at most);
    /// the item is queued again with one retry less if it had more than one left.
    pub fn complete(&mut self, item: SendItem, ok: bool, now_ms: u64) -> (r: SendOutcome)
        ensures
            r == (if ok {
                SendOutcome::Sent
            } else if item.retries_left > 1 {
                SendOutcome::Requeued
            } else {
                SendOutcome::Dropped
            }),
            final(self).active_spec() == (if old(self).active_spec() > 0 { old(self).active_spec() - 1 } else { 0 }),
            final(self).busy_table() == without_key(old(self).busy_table(), item.device_uuid@),
            final(self).in_flight_table() == (match item.dedup_key {
                Some(k) => if k@.len() > 0 { without_key(old(self).in_flight_table(), k@) } else { old(self).in_flight_table() },
                None => old(self).in_flight_table(),
            }),
            final(self).is_running_spec() == old(self).is_running_spec(),
            ok ==> final(self).streak_table() == without_key(old(self).streak_table(), item.device_uuid@),
            ok ==> final(self).cooldown_table() == without_key(old(self).cooldown_table(), item.device_uuid@),
            ok ==> final(self).queued() == old(self).queued(),
            !ok ==> final(self).streak_table() == without_key(old(self).streak_table(), item.device_uuid@).push(
                (item.device_uuid, next_streak(old(self).streak_table(), item.device_uuid@))),
            !ok ==> final(self).cooldown_table() == without_key(old(self).cooldown_table(), item.device_uuid@).push(
                (item.device_uuid, now_ms.saturating_add(cooldown_ms(next_streak(old(self).streak_table(), item.device_uuid@))))),
            !ok ==> final(self).queued() == (if item.retries_left > 1 {
                old(self).queued().push(with_retries(item, (item.retries_left - 1) as u32))
            } else {
                old(self).queued()
            }),
    {
        let outcome;
        if ok {
            remove_key(&mut self.device_fail_streak, item.device_uuid.as_str());
            remove_key(&mut self.device_cooldown, item.device_uuid.as_str());
            outcome = SendOutcome::Sent;
        } else {
            let streak = match lookup(&self.device_fail_streak, item.device_uuid.as_str()) {
                Some(v) => v.saturating_add(1),
                None => 1,
            };
            insert_key(&mut self.device_fail_streak, item.device_uuid.clone(), streak);
            let secs: u64 = if (streak as u64) < Self::MAX_COOLDOWN_SECS { streak as u64 } else { Self::MAX_COOLDOWN_SECS };
            let until = now_ms.saturating_add(secs * 1000);
            insert_key(&mut self.device_cooldown, item.device_uuid.clone(), until);
            if item.retries_left > 1 {
                let mut again = item.duplicate();
                again.retries_left = item.retries_left - 1;
                self.items.push(again);
                outcome = SendOutcome::Requeued;
            } else {
                outcome = SendOutcome::Dropped;
            }
        }
        if self.active > 0 {
            self.active = self.active - 1;
        }
        remove_key(&mut self.busy_devices, item.device_uuid.as_str());
        match &item.dedup_key {
            Some(k) => {
                if !k.as_str().is_empty() {
                    remove_key(&mut self.in_flight, k.as_str());
                }
            },
            None => {},
        }
        outcome
    }

    /// Asks the worker to stop.
    pub fn stop(&mut self)
        ensures
            !final(self).is_running_spec(),
            final(self).queued() == old(self).queued(),
            final(self).active_spec() == old(self).active_spec(),
    {
        self.running = false;
    }

    /// Whether the worker should keep running.
    pub fn is_running(&self) -> (r: bool)
        ensures
            r == self.is_running_spec(),
    {
        self.running
    }

    /// Number of queued items.
    pub fn pending_count(&self) -> (r: usize)
        ensures
            r == self.queued().len(),
    {
        self.items.len()
    }

    /// The queued items, oldest first.
    pub fn items(&self) -> (r: &Vec<SendItem>)
        ensures
            r@ == self.queued(),
    {
        &self.items
    }

    /// Sends handed out and not completed.
    pub fn active_count(&self) -> (r: usize)
        ensures
            r == self.active_spec(),
    {
        self.active
    }
}

/// Why a queued item is not sent.
#[derive(Debug, Clone, Copy, PartialEq, Eq, Structural)]
pub enum SkipReason {
    /// No session key for the device.
    NoKey,
    /// The device is this device.
    SelfTarget,
    /// Encryption failed.
    EncryptFailed,
    /// No usable address for the device.
    NoAddress,
}

/// How a queued item is sent.
pub enum SendPlan {
    Skip(SkipReason),
    /// Send `frame` to `ip` on `port` with this connect time-out.
    Send { frame: Vec<u8>, ip: String, port: u16, timeout_ms: u32 },
}

/// An address a send can go to: not empty and not `0.0.0.0`.
pub open spec fn sendable_ip(ip: Seq<char>) -> bool {
    ip.len() > 0 && ip != "0.0.0.0"@
}

/// `frame` is a DATA frame from `local_uuid` with header `header` whose encrypted part is an
/// encryption of `plaintext` under `key`, bound to the local `major.minor`.
pub open spec fn frames_encryption(frame: Seq<u8>, key: Seq<u8>, header: Seq<char>, plaintext: Seq<char>, local_uuid: Seq<char>) -> bool {
    exists|enc: Seq<char>| #[trigger] is_encryption_of(enc, key, encode_utf8(plaintext), data_aad_spec())
        && frame == frame_bytes(data_header_type(header), encode_utf8(data_payload_text(header, local_uuid, Seq::<char>::empty(), enc)))
}

/// Prepares the send of `item` from `local_uuid` to the device's address `ip`: the payload
/// is encrypted with the device's session key (bound to the local `major.minor`) and framed
/// as DATA `header:local_uuid:version::encrypted`; media states get the short time-out.
pub fn plan_send(item: &SendItem, crypto: &CryptoState, local_uuid: &str, ip: &str) -> (r: SendPlan)
    ensures
        ({
            let key = match last_value(crypto.device_keys@, item.device_uuid@) {
                Some(e) => session_key_of(e),
                None => None,
            };
            match key {
                None => r matches SendPlan::Skip(SkipReason::NoKey),
                Some(k) => if local_uuid@.len() > 0 && item.device_uuid@ == local_uuid@ {
                    r matches SendPlan::Skip(SkipReason::SelfTarget)
                } else {
                    &&& encode_utf8(item.plaintext@).len() <= GCM_MAX_LEN && data_aad_spec().len() <= GCM_MAX_LEN
                        ==> r != SendPlan::Skip(SkipReason::EncryptFailed)
                    &&& !sendable_ip(ip@) ==> r is Skip
                    &&& match r {
                        SendPlan::Send { frame, ip: to, port, timeout_ms } => {
                            &&& sendable_ip(ip@)
                            &&& to@ == ip@
                            &&& port == DEFAULT_TCP_PORT
                            &&& timeout_ms == (if is_media_header_spec(item.header@) { 800u32 } else { 3000u32 })
                            &&& frames_encryption(frame@, k, item.header@, item.plaintext@, local_uuid@)
                        },
                        SendPlan::Skip(why) => why == SkipReason::EncryptFailed || (why == SkipReason::NoAddress && !sendable_ip(ip@)),
                    }
                },
            }
        }),
{
    let key = match crypto.get_aes_key(item.device_uuid.as_str()) {
        Some(k) => k,
        None => return SendPlan::Skip(SkipReason::NoKey),
    };
    if !local_uuid.is_empty() && str_eq(item.device_uuid.as_str(), local_uuid) {
        return SendPlan::Skip(SkipReason::SelfTarget);
    }
    let aad = data_aad();
    let enc = match encrypt_with_aad(&key, item.plaintext.as_str().as_bytes(), aad.as_slice()) {
        Ok(e) => e,
        Err(_) => return SendPlan::Skip(SkipReason::EncryptFailed),
    };
    let empty = String::new();
    let frame = encode_data_message(item.header.as_str(), local_uuid, empty.as_str(), enc.as_str());
    if ip.is_empty() || str_eq(ip, "0.0.0.0") {
        return SendPlan::Skip(SkipReason::NoAddress);
    }
    let timeout_ms = SenderQueue::send_timeout_ms(item.header.as_str());
    assert(empty@ =~= Seq::<char>::empty());
    proof {
        let e = last_value(crypto.device_keys@, item.device_uuid@)->0;
        assert(session_key_of(e) == Some(key@));
        assert(is_encryption_of(enc@, key@, encode_utf8(item.plaintext@), data_aad_spec()));
    }
    let ghost fv = frame@;
    assert(frames_encryption(fv, key@, item.header@, item.plaintext@, local_uuid@));
    let r = SendPlan::Send { frame, ip: crate::text::owned(ip), port: DEFAULT_TCP_PORT, timeout_ms };
    r
}

/// Law: a frame that `plan_send` prepares reads back, on the receiving side, as a frame of the
/// header's type whose DATA fields name the header and the sender, with the local version and
/// no public key, and whose encrypted part decrypts under the same key (bound to the local
/// `major.minor`) to the UTF-8 bytes of the plaintext; when header and sender hold no `:` and
/// the payload fits a frame.
pub proof fn law_planned_frame_opens(
    frame: Seq<u8>,
    key: Seq<u8>,
    header: Seq<char>,
    plaintext: Seq<char>,
    local_uuid: Seq<char>,
)
    requires
        frames_encryption(frame, key, header, plaintext, local_uuid),
        !header.contains(':'),
        !local_uuid.contains(':'),
        frame.len() <= 5 + MAX_FRAME_LEN,
    ensures
        read_frame_spec(frame) matches Ok((t, payload)) && {
            &&& t == data_header_type(header)
            &&& valid_utf8(payload)
            &&& data_fields_spec(decode_utf8(payload)) matches Some((h, u, v, k, e))
            &&& h == header
            &&& u == local_uuid
            &&& v == CORE_VERSION@
            &&& k.len() == 0
            &&& decryption_of(e, key, data_aad_spec()) == Some(encode_utf8(plaintext))
        },
{
    let enc = choose|enc: Seq<char>| #[trigger] is_encryption_of(enc, key, encode_utf8(plaintext), data_aad_spec())
        && frame == frame_bytes(data_header_type(header), encode_utf8(data_payload_text(header, local_uuid, Seq::<char>::empty(), enc)));
    let text = data_payload_text(header, local_uuid, Seq::<char>::empty(), enc);
    let payload = encode_utf8(text);
    assert(frame.len() == 5 + payload.len());
    law_frame_roundtrip(data_header_type(header), payload);
    encode_utf8_valid_utf8(text);
    encode_utf8_decode_utf8(text);
    assert(!Seq::<char>::empty().contains(':'));
    law_data_roundtrip(header, local_uuid, Seq::<char>::empty(), enc);
    law_encryption_decrypts(enc, key, encode_utf8(plaintext), data_aad_spec());
}

/// How long (ms) a sent de-duplication key blocks another send of it.
pub const SENT_DEDUP_TTL_MS: i64 = 3000;

/// The item for a message the platform asks to send at `now_ms`. A non-empty `dedup_key`
/// that is pending or was sent within `SENT_DEDUP_TTL_MS` refuses it (`None`, nothing
/// changes); otherwise the key becomes pending and the item is built: a notification gets
/// its generation time `ts`, other payloads are kept; no retry, no coalescing.
pub fn message_item(
    dedup: &mut DedupState,
    device_uuid: &str,
    header: &str,
    plaintext: &str,
    dedup_key: &str,
    now_ms: i64,
) -> (r: Option<SendItem>)
    ensures
        dedup_key@.len() > 0 && !old(dedup).admits(dedup_key@, SENT_DEDUP_TTL_MS, now_ms) ==> r is None
            && *final(dedup) == *old(dedup),
        dedup_key@.len() == 0 ==> *final(dedup) == *old(dedup),
        dedup_key@.len() > 0 && old(dedup).admits(dedup_key@, SENT_DEDUP_TTL_MS, now_ms) ==> {
            &&& forall|k: Seq<char>| #[trigger] final(dedup).is_pending(k) == (k == dedup_key@ || old(dedup).is_pending(k))
            &&& final(dedup).sent_table() == old(dedup).sent_table()
        },
        (dedup_key@.len() == 0 || old(dedup).admits(dedup_key@, SENT_DEDUP_TTL_MS, now_ms)) ==> (r matches Some(item) && {
            &&& item.device_uuid@ == device_uuid@
            &&& item.header@ == header@
            &&& item.plaintext@ == (if header@ == "DATA_NOTIFICATION"@ { inject_ts_spec(plaintext@, now_ms) } else { plaintext@ })
            &&& (item.dedup_key is None <==> dedup_key@.len() == 0)
            &&& (item.dedup_key matches Some(k) ==> k@ == dedup_key@)
            &&& item.retries_left == 0
            &&& item.coalesce_key is None
        }),
{
    if !dedup_key.is_empty() {
        if !dedup.check_and_pend_at(dedup_key, SENT_DEDUP_TTL_MS, now_ms) {
            return None;
        }
    }
    let text = if str_eq(header, "DATA_NOTIFICATION") {
        inject_ts(plaintext, now_ms)
    } else {
        crate::text::owned(plaintext)
    };
    let key = if dedup_key.is_empty() { None } else { Some(crate::text::owned(dedup_key)) };
    Some(SendItem {
        device_uuid: crate::text::owned(device_uuid),
        header: crate::text::owned(header),
        plaintext: text,
        dedup_key: key,
        retries_left: 0,
        coalesce_key: None,
    })
}

/// Keeps de-duplication in step with a finished send of a message with key `key` at time
/// `now`: a delivered key is marked sent, a dropped message's reservation is cleared, a
/// requeued message stays pending; no (or an empty) key changes nothing.
pub fn settle_dedup(dedup: &mut DedupState, key: &Option<String>, outcome: SendOutcome, now: i64)
    ensures
        match key {
            Some(k) => if k@.len() == 0 {
                *final(dedup) == *old(dedup)
            } else {
                match outcome {
                    SendOutcome::Sent => {
                        &&& forall|x: Seq<char>| #[trigger] final(dedup).is_pending(x) == (x != k@ && old(dedup).is_pending(x))
                        &&& final(dedup).sent_at(k@) == Some(now)
                        &&& forall|x: Seq<char>| x != k@ ==> #[trigger] final(dedup).sent_at(x) == old(dedup).sent_at(x)
                    },
                    SendOutcome::Dropped => {
                        &&& forall|x: Seq<char>| #[trigger] final(dedup).is_pending(x) == (x != k@ && old(dedup).is_pending(x))
                        &&& final(dedup).sent_table() == old(dedup).sent_table()
                    },
                    SendOutcome::Requeued => *final(dedup) == *old(dedup),
                }
            },
            None => *final(dedup) == *old(dedup),
        },
{
    if let Some(k) = key {
        if !k.as_str().is_empty() {
            match outcome {
                SendOutcome::Sent => dedup.mark_sent_at(k.as_str(), now),
                SendOutcome::Dropped => dedup.clear_pending(k.as_str()),
                SendOutcome::Requeued => {},
            }
        }
    }
}

// ===================== laws =====================

/// Law: when a full (non-delta) item with a coalescing key enters the queue, it is the only
/// queued item with that key: every older item with the same key is gone.
pub proof fn law_full_state_keeps_latest_only(items: Seq<SendItem>, p: SendItem)
    requires
        p.coalesce_key is Some,
        !is_delta_spec(p.plaintext@),
    ensures
        forall|j: int| 0 <= j < kept_for(items, p).len() ==>
            !((#[trigger] kept_for(items, p)[j]).coalesce_key is Some
                && kept_for(items, p)[j].coalesce_key->0@ == p.coalesce_key->0@),
{
    let pred = other_key(p.coalesce_key->0@);
    assert forall|j: int| 0 <= j < kept_for(items, p).len() implies
        !((#[trigger] kept_for(items, p)[j]).coalesce_key is Some
            && kept_for(items, p)[j].coalesce_key->0@ == p.coalesce_key->0@) by {
        items.lemma_filter_pred(pred, j);
    }
}

/// Law: an item that is not a media state and has no coalescing key never displaces
/// anything: the queue only grows by it.
pub proof fn law_non_media_never_coalesced(items: Seq<SendItem>, item: SendItem, p: SendItem)
    requires
        !is_media_header_spec(item.header@),
        item.coalesce_key is None,
        prepared(item, p),
    ensures
        kept_for(items, p) == items,
        p.retries_left == 3,
{
}

/// Law: a delta item never displaces anything, whatever its key.
pub proof fn law_delta_never_replaces(items: Seq<SendItem>, p: SendItem)
    requires
        is_delta_spec(p.plaintext@),
    ensures
        kept_for(items, p) == items,
{
}

/// Law: once a device has a send handed out, no other item for that device is eligible
/// until the send completes (one send at a time per device).
pub proof fn law_one_send_per_device(
    f: Seq<(String, u64)>,
    b: Seq<(String, u64)>,
    c: Seq<(String, u64)>,
    device: String,
    t: u64,
    other: SendItem,
)
    requires
        other.device_uuid@ == device@,
    ensures
        !eligible(other, f, b.push((device, t)), c),
{
}

/// Law: after a failure the device's streak is one more than before (saturating) and its
/// cool-down ends `min(streak, 5)` seconds later; other devices are untouched.
pub proof fn law_failure_backoff(
    streaks: Seq<(String, u32)>,
    cooldowns: Seq<(String, u64)>,
    device: String,
    now_ms: u64,
    other: Seq<char>,
)
    ensures
        ({
            let s = next_streak(streaks, device@);
            &&& last_value(without_key(streaks, device@).push((device, s)), device@) == Some(s)
            &&& last_value(without_key(cooldowns, device@).push((device, now_ms.saturating_add(cooldown_ms(s)))), device@)
                == Some(now_ms.saturating_add(cooldown_ms(s)))
            &&& other != device@ ==> last_value(without_key(streaks, device@).push((device, s)), other) == last_value(streaks, other)
        }),
        next_streak(streaks, device@) >= 1,
        cooldown_ms(next_streak(streaks, device@)) <= 5000,
{
    let s = next_streak(streaks, device@);
    crate::vecmap::lemma_insert_key(streaks, device, s, other);
    crate::vecmap::lemma_insert_key(cooldowns, device, now_ms.saturating_add(cooldown_ms(s)), other);
}

/// Law: a success clears the device's streak and cool-down.
pub proof fn law_success_clears(streaks: Seq<(String, u32)>, cooldowns: Seq<(String, u64)>, device: Seq<char>)
    ensures
        last_value(without_key(streaks, device), device) is None,
        !has_key(without_key(cooldowns, device), device),
{
    crate::vecmap::lemma_without_key_absent(streaks, device);
    crate::vecmap::lemma_without_key_absent(cooldowns, device);
}

/// Law: a message that marks the end of a media session (it holds `"terminate":true` or
/// `__END__`) gets the full retries, whatever its header; a media state that marks no end
/// gets one try.
pub proof fn law_end_packets_retried_fully(header: Seq<char>, text: Seq<char>)
    ensures
        (contains_seq(text, "\"terminate\":true"@) || contains_seq(text, "__END__"@))
            ==> initial_retries(header, text) == SenderQueue::MAX_RETRIES,
        is_media_header_spec(header) && !contains_seq(text, "\"terminate\":true"@) && !contains_seq(text, "__END__"@)
            ==> initial_retries(header, text) == 1,
{
}

} // verus!
