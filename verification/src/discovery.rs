//! Known (paired) devices and the scanning round that re-handshakes those not heard from.
use vstd::prelude::*;
use vstd::string::*;
use crate::heartbeat::{HeartbeatState, recently_seen};
use crate::text::{owned, str_eq};
use crate::vecmap::{insert_key, remove_key, without_key};

verus! {

/// Window (s) in which a heartbeat counts as online.
pub const RECENT_SEEN_SECS: i64 = 15;

/// Known devices and whether the scanner runs.
pub struct DiscoveryState {
    scanner_running: bool,
    /// device -> address.
    known_devices: Vec<(String, String)>,
}

/// Predicate: a known device the scanner should handshake: not this device and not
/// recently seen.
pub open spec fn needs_handshake(local: Option<Seq<char>>, hb: Seq<(String, i64)>, now: i64) -> spec_fn((String, String)) -> bool {
    |e: (String, String)| !(local == Some(e.0@)) && !recently_seen(hb, e.0@, now, RECENT_SEEN_SECS)
}

impl DiscoveryState {
    /// The known devices (id, address), in insertion order.
    pub closed spec fn known(&self) -> Seq<(String, String)> {
        self.known_devices@
    }

    /// Whether the scanner runs.
    pub closed spec fn scanning(&self) -> bool {
        self.scanner_running
    }

    /// No known device, scanner not running.
    pub fn new() -> (r: DiscoveryState)
        ensures
            r.known().len() == 0,
            !r.scanning(),
    {
        DiscoveryState { scanner_running: false, known_devices: Vec::new() }
    }

    /// Remembers (or re-addresses) a paired device.
    pub fn add_known_device(&mut self, uuid: &str, ip: &str)
        ensures
            final(self).known().len() > 0,
            final(self).known().drop_last() == without_key(old(self).known(), uuid@),
            final(self).known().last().0@ == uuid@,
            final(self).known().last().1@ == ip@,
            final(self).scanning() == old(self).scanning(),
    {
        insert_key(&mut self.known_devices, owned(uuid), owned(ip));
    }

    /// Forgets a device.
    pub fn remove_known_device(&mut self, uuid: &str)
        ensures
            final(self).known() == without_key(old(self).known(), uuid@),
            final(self).scanning() == old(self).scanning(),
    {
        remove_key(&mut self.known_devices, uuid);
    }

    /// A copy of the known devices.
    pub fn get_known_devices(&self) -> (r: Vec<(String, String)>)
        ensures
            r@ == self.known(),
    {
        let mut out: Vec<(String, String)> = Vec::new();
        let mut i: usize = 0;
        while i < self.known_devices.len()
            invariant
                i <= self.known_devices.len(),
                out@ == self.known_devices@.take(i as int),
            decreases self.known_devices.len() - i,
        {
            out.push((self.known_devices[i].0.clone(), self.known_devices[i].1.clone()));
            i = i + 1;
            assert(out@ =~= self.known_devices@.take(i as int));
        }
        assert(self.known_devices@.take(i as int) =~= self.known_devices@);
        out
    }

    /// Marks the scanner as running; answers whether it was not running before (and so has
    /// to be started).
    pub fn start_known_device_scanner(&mut self) -> (r: bool)
        ensures
            r == !old(self).scanning(),
            final(self).scanning(),
            final(self).known() == old(self).known(),
    {
        if self.scanner_running {
            return false;
        }
        self.scanner_running = true;
        true
    }

    /// Marks the scanner as stopped.
    pub fn stop_scanner(&mut self)
        ensures
            !final(self).scanning(),
            final(self).known() == old(self).known(),
    {
        self.scanner_running = false;
    }

    /// One scanning round at time `now` (s): the known devices to handshake, in order —
    /// those that are not this device and have a stale heartbeat.
    pub fn scan_targets(&self, local_uuid: Option<&str>, heartbeat: &HeartbeatState, now: i64) -> (r: Vec<(String, String)>)
        ensures
            r@ == self.known().filter(needs_handshake(match local_uuid {
                Some(u) => Some(u@),
                None => None,
            }, heartbeat.last_seen@, now)),
    {
        let ghost local = match local_uuid {
            Some(u) => Some(u@),
            None => None::<Seq<char>>,
        };
        let ghost pred = needs_handshake(local, heartbeat.last_seen@, now);
        let mut out: Vec<(String, String)> = Vec::new();
        let mut i: usize = 0;
        assert(self.known_devices@.take(0).filter(pred) =~= Seq::<(String, String)>::empty()) by {
            reveal(Seq::filter);
        }
        while i < self.known_devices.len()
            invariant
                i <= self.known_devices.len(),
                pred == needs_handshake(local, heartbeat.last_seen@, now),
                local == (match local_uuid {
                    Some(u) => Some(u@),
                    None => None::<Seq<char>>,
                }),
                out@ == self.known_devices@.take(i as int).filter(pred),
            decreases self.known_devices.len() - i,
        {
            proof {
                assert(self.known_devices@.take(i + 1) =~= self.known_devices@.take(i as int).push(self.known_devices@[i as int]));
                self.known_devices@.take(i as int).lemma_filter_push(self.known_devices@[i as int], pred);
            }
            let uuid = self.known_devices[i].0.as_str();
            let is_self = match local_uuid {
                Some(u) => str_eq(u, uuid),
                None => false,
            };
            if !is_self && !heartbeat.is_recently_seen(uuid, now, RECENT_SEEN_SECS) {
                out.push((self.known_devices[i].0.clone(), self.known_devices[i].1.clone()));
            }
            i = i + 1;
        }
        assert(self.known_devices@.take(i as int) =~= self.known_devices@);
        out
    }
}

/// Seconds to the next scanning round: 5 while some device is offline, else 15.
pub fn scan_interval_secs(has_offline: bool) -> (r: u64)
    ensures
        r == (if has_offline { 5u64 } else { 15u64 }),
{
    if has_offline { 5 } else { 15 }
}

} // verus!
