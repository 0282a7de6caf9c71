//! Heartbeats: when each peer was last heard from, the UDP heartbeat line, the back-off of
//! the sender, the sender's parameters, and the per-device scheduling round.
use vstd::prelude::*;
use vstd::string::*;
use crate::crypto::b64::{b64_encode, base64_text};
use crate::device_registry::now_sec;
use crate::protocol::codec::DEFAULT_TCP_PORT;
use crate::text::{owned, parse_i32, parse_u16, split, split_seq, str_eq};
use crate::vecmap::{
    has_key, insert_key, keys_unique, last_value, lemma_insert_key_unique, lemma_without_key_unique, lookup, remove_key,
    without_key,
};

verus! {

/// Upper bound (ms) of the heartbeat interval of an unreachable peer.
pub const MAX_HEARTBEAT_INTERVAL_MS: u64 = 60000;

/// Heartbeat mode: directed TCP heartbeats to each peer.
pub const HEARTBEAT_MODE_TCP: i32 = 1;

/// When each peer was last heard from.
pub struct HeartbeatState {
    /// device -> time (s) of its last heartbeat.
    pub last_seen: Vec<(String, i64)>,
}

/// The devices of `m` whose last heartbeat is more than `timeout` seconds before `now`, in
/// table order.
pub open spec fn timed_out(m: Seq<(String, i64)>, now: i64, timeout: i64) -> Seq<Seq<char>>
    decreases m.len(),
{
    if m.len() == 0 {
        Seq::empty()
    } else if now - m.last().1 > timeout {
        timed_out(m.drop_last(), now, timeout).push(m.last().0@)
    } else {
        timed_out(m.drop_last(), now, timeout)
    }
}

/// Whether `uuid` counts as online at time `now`: it has no stale heartbeat. (A device never
/// heard from is not stale.)
pub open spec fn recently_seen(m: Seq<(String, i64)>, uuid: Seq<char>, now: i64, window: i64) -> bool {
    !timed_out(m, now, window).contains(uuid)
}

/// Every device the timed-out list names has a heartbeat in the table.
proof fn lemma_timed_out_keys(m: Seq<(String, i64)>, now: i64, timeout: i64, x: Seq<char>)
    requires
        timed_out(m, now, timeout).contains(x),
    ensures
        has_key(m, x),
    decreases m.len(),
{
    if m.len() > 0 {
        if m.last().0@ != x {
            let t = timed_out(m.drop_last(), now, timeout);
            if now - m.last().1 > timeout {
                let i = choose|i: int| 0 <= i < t.push(m.last().0@).len() && t.push(m.last().0@)[i] == x;
                assert(t[i] == x);
            }
            lemma_timed_out_keys(m.drop_last(), now, timeout, x);
        }
    }
}

/// With one entry per device, the timed-out list names each device at most once.
proof fn lemma_timed_out_unique(m: Seq<(String, i64)>, now: i64, timeout: i64)
    requires
        keys_unique(m),
    ensures
        timed_out(m, now, timeout).no_duplicates(),
    decreases m.len(),
{
    if m.len() > 0 {
        lemma_timed_out_unique(m.drop_last(), now, timeout);
        let t = timed_out(m.drop_last(), now, timeout);
        if now - m.last().1 > timeout {
            if t.contains(m.last().0@) {
                lemma_timed_out_keys(m.drop_last(), now, timeout, m.last().0@);
            }
            let u = t.push(m.last().0@);
            assert forall|i: int, j: int| 0 <= i < u.len() && 0 <= j < u.len() && i != j implies u[i] != u[j] by {
                if i < t.len() && j < t.len() {
                } else if i == t.len() {
                    assert(t[j] == u[j]);
                } else {
                    assert(t[i] == u[i]);
                }
            }
        }
    }
}

impl HeartbeatState {
    /// The table holds one entry per device.
    pub open spec fn wf(&self) -> bool {
        keys_unique(self.last_seen@)
    }

    /// No device heard from.
    pub fn new() -> (r: HeartbeatState)
        ensures
            r.last_seen@.len() == 0,
            r.wf(),
    {
        HeartbeatState { last_seen: Vec::new() }
    }

    /// Records a heartbeat of `uuid` at time `now` (s).
    pub fn record_at(&mut self, uuid: &str, now: i64)
        ensures
            final(self).last_seen@ == without_key(old(self).last_seen@, uuid@).push((final(self).last_seen@.last().0, now)),
            final(self).last_seen@.last().0@ == uuid@,
            old(self).wf() ==> final(self).wf(),
    {
        let k = owned(uuid);
        proof {
            if keys_unique(self.last_seen@) {
                lemma_insert_key_unique(self.last_seen@, k, now);
            }
        }
        insert_key(&mut self.last_seen, k, now);
    }

    /// Records a heartbeat of `uuid` now (by the system clock).
    pub fn record(&mut self, uuid: &str)
        ensures
            final(self).last_seen@.len() > 0,
            final(self).last_seen@.drop_last() == without_key(old(self).last_seen@, uuid@),
            final(self).last_seen@.last().0@ == uuid@,
            old(self).wf() ==> final(self).wf(),
    {
        let now = now_sec();
        self.record_at(uuid, now);
    }

    /// The devices silent for more than `timeout_sec` seconds at time `now` (s); each once
    /// when the table holds one entry per device.
    pub fn check_timeouts_at(&self, timeout_sec: i64, now: i64) -> (r: Vec<String>)
        ensures
            r@.map_values(|s: String| s@) == timed_out(self.last_seen@, now, timeout_sec),
            self.wf() ==> r@.map_values(|s: String| s@).no_duplicates(),
    {
        proof {
            if self.wf() {
                lemma_timed_out_unique(self.last_seen@, now, timeout_sec);
            }
        }
        let mut out: Vec<String> = Vec::new();
        let mut i: usize = 0;
        while i < self.last_seen.len()
            invariant
                i <= self.last_seen.len(),
                out@.map_values(|s: String| s@) == timed_out(self.last_seen@.take(i as int), now, timeout_sec),
            decreases self.last_seen.len() - i,
        {
            let ghost prev = out@;
            assert(self.last_seen@.take(i + 1).drop_last() =~= self.last_seen@.take(i as int));
            let ts = self.last_seen[i].1;
            if (now as i128) - (ts as i128) > (timeout_sec as i128) {
                out.push(self.last_seen[i].0.clone());
                assert(out@.map_values(|s: String| s@) =~= prev.map_values(|s: String| s@).push(self.last_seen@[i as int].0@));
            }
            i = i + 1;
        }
        assert(self.last_seen@.take(self.last_seen.len() as int) =~= self.last_seen@);
        out
    }

    /// The devices silent for more than `timeout_sec` seconds now (by the system clock).
    pub fn check_timeouts(&self, timeout_sec: i64) -> (r: Vec<String>)
        ensures
            exists|now: i64| r@.map_values(|s: String| s@) == timed_out(self.last_seen@, now, timeout_sec),
            self.wf() ==> r@.map_values(|s: String| s@).no_duplicates(),
    {
        let now = now_sec();
        self.check_timeouts_at(timeout_sec, now)
    }

    /// Whether `uuid` has no stale heartbeat (older than `window` s) at time `now`.
    pub fn is_recently_seen(&self, uuid: &str, now: i64, window: i64) -> (r: bool)
        ensures
            r == recently_seen(self.last_seen@, uuid@, now, window),
    {
        let stale = self.check_timeouts_at(window, now);
        let ghost views = stale@.map_values(|s: String| s@);
        assert(views =~= timed_out(self.last_seen@, now, window));
        let mut i: usize = 0;
        while i < stale.len()
            invariant
                i <= stale.len(),
                views == stale@.map_values(|s: String| s@),
                views == timed_out(self.last_seen@, now, window),
                forall|j: int| 0 <= j < i ==> views[j] != uuid@,
            decreases stale.len() - i,
        {
            if str_eq(stale[i].as_str(), uuid) {
                assert(views[i as int] == uuid@);
                assert(views.contains(uuid@));
                return false;
            }
            i = i + 1;
        }
        assert(!views.contains(uuid@));
        true
    }

    /// Forgets `uuid`.
    pub fn remove(&mut self, uuid: &str)
        ensures
            final(self).last_seen@ == without_key(old(self).last_seen@, uuid@),
            old(self).wf() ==> final(self).wf(),
    {
        proof {
            if keys_unique(self.last_seen@) {
                lemma_without_key_unique(self.last_seen@, uuid@);
            }
        }
        remove_key(&mut self.last_seen, uuid);
    }
}

/// The fields of a UDP heartbeat line `uuid:name:port:battery:type[:...]`, or `None` with
/// fewer than five fields. A port or battery that does not parse becomes the default TCP
/// port or 0.
pub open spec fn udp_heartbeat_spec(line: Seq<char>) -> Option<(Seq<char>, Seq<char>, u16, i32, Seq<char>)> {
    let parts = split_seq(line, ':');
    if parts.len() < 5 {
        None
    } else {
        Some((
            parts[0],
            parts[1],
            match crate::text::parse_unsigned(parts[2], 65535) { Some(v) => v as u16, None => 23333u16 },
            match crate::text::parse_signed(parts[3], 2147483647) {
                Some(v) => if v >= -2147483648 { v as i32 } else { 0i32 },
                None => 0i32,
            },
            parts[4],
        ))
    }
}

/// Parses a UDP heartbeat line `uuid:name:port:battery:type[:...]`.
pub fn parse_udp_heartbeat(line: &str) -> (r: Option<(String, String, u16, i32, String)>)
    ensures
        match r {
            None => udp_heartbeat_spec(line@) is None,
            Some((u, n, p, b, t)) => udp_heartbeat_spec(line@) == Some((u@, n@, p, b, t@)),
        },
{
    let parts = split(line, ':');
    if parts.len() < 5 {
        return None;
    }
    let port = match parse_u16(parts[2].as_str()) {
        Some(p) => p,
        None => DEFAULT_TCP_PORT,
    };
    let battery = match parse_i32(parts[3].as_str()) {
        Some(b) => b,
        None => 0,
    };
    Some((
        parts[0].clone(),
        parts[1].clone(),
        port,
        battery,
        parts[4].clone(),
    ))
}

/// The interval after a heartbeat round: the base interval after a delivered heartbeat,
/// otherwise twice the current one, at most `MAX_HEARTBEAT_INTERVAL_MS`.
pub open spec fn next_interval_spec(current: u64, base: u64, sent: bool) -> u64 {
    if sent {
        base
    } else if 2 * current < MAX_HEARTBEAT_INTERVAL_MS {
        (2 * current) as u64
    } else {
        MAX_HEARTBEAT_INTERVAL_MS
    }
}

/// The interval (ms) before the next heartbeat.
pub fn next_heartbeat_interval(current: u64, base: u64, sent: bool) -> (r: u64)
    ensures
        r == next_interval_spec(current, base, sent),
{
    if sent {
        base
    } else if current < MAX_HEARTBEAT_INTERVAL_MS / 2 {
        current * 2
    } else {
        MAX_HEARTBEAT_INTERVAL_MS
    }
}

/// What a heartbeat sender sends: local id, base64 name, battery, type, and the target
/// address.
pub struct HeartbeatSenderParams {
    pub uuid: String,
    pub name_b64: String,
    pub battery: i32,
    pub device_type: String,
    pub ip: String,
}

/// A per-device heartbeat sender: its parameters and whether it should keep running.
pub struct HeartbeatHandle {
    pub running: bool,
    pub params: HeartbeatSenderParams,
}

impl HeartbeatHandle {
    /// A running sender with the given parameters (the name is stored base64-encoded).
    pub fn new(uuid: &str, name: &str, battery: i32, device_type: &str, ip: &str) -> (r: HeartbeatHandle)
        ensures
            r.running,
            r.params.uuid@ == uuid@,
            r.params.name_b64@ == base64_text(name@),
            r.params.battery == battery,
            r.params.device_type@ == device_type@,
            r.params.ip@ == ip@,
    {
        HeartbeatHandle {
            running: true,
            params: HeartbeatSenderParams {
                uuid: owned(uuid),
                name_b64: b64_encode(name),
                battery,
                device_type: owned(device_type),
                ip: owned(ip),
            },
        }
    }

    /// Updates the parameters: only non-empty texts and known battery levels (within
    /// `[-100, 100]`) replace the stored ones; the name is stored base64-encoded.
    pub fn update(&mut self, uuid: &str, name: &str, battery: i32, device_type: &str, ip: &str)
        ensures
            final(self).running == old(self).running,
            final(self).params.uuid@ == (if uuid@.len() > 0 { uuid@ } else { old(self).params.uuid@ }),
            final(self).params.name_b64@ == (if name@.len() > 0 { base64_text(name@) } else { old(self).params.name_b64@ }),
            final(self).params.battery == (if -100 <= battery <= 100 { battery } else { old(self).params.battery }),
            final(self).params.device_type@ == (if device_type@.len() > 0 { device_type@ } else { old(self).params.device_type@ }),
            final(self).params.ip@ == (if ip@.len() > 0 { ip@ } else { old(self).params.ip@ }),
    {
        if !uuid.is_empty() {
            self.params.uuid = owned(uuid);
        }
        if !name.is_empty() {
            self.params.name_b64 = b64_encode(name);
        }
        if -100 <= battery && battery <= 100 {
            self.params.battery = battery;
        }
        if !device_type.is_empty() {
            self.params.device_type = owned(device_type);
        }
        if !ip.is_empty() {
            self.params.ip = owned(ip);
        }
    }

    /// Asks the sender to stop.
    pub fn stop(&mut self)
        ensures
            !final(self).running,
            final(self).params == old(self).params,
    {
        self.running = false;
    }
}

/// The scheduler of per-device heartbeats: whether it should keep running.
pub struct HeartbeatScheduler {
    pub running: bool,
}

/// What one scheduling round does.
pub struct SchedulerPlan {
    /// Devices whose sender stops.
    pub stop: Vec<String>,
    /// Devices (id, address) whose sender starts.
    pub start: Vec<(String, String)>,
}

/// Whether a text list holds `k`.
pub open spec fn list_has(l: Seq<String>, k: Seq<char>) -> bool {
    exists|i: int| 0 <= i < l.len() && (#[trigger] l[i])@ == k
}

/// Predicate: a known device gets a new sender: none yet, paired, and not this device.
pub open spec fn needs_sender(running: Seq<String>, paired: Seq<String>, local: Seq<char>) -> spec_fn((String, String)) -> bool {
    |e: (String, String)| !list_has(running, e.0@) && list_has(paired, e.0@) && e.0@ != local
}

/// Predicate: a running sender whose device is no longer known.
pub open spec fn gone(known: Seq<(String, String)>) -> spec_fn(String) -> bool {
    |u: String| !has_key(known, u@)
}

fn list_contains(l: &Vec<String>, k: &str) -> (r: bool)
    ensures
        r == list_has(l@, k@),
{
    let mut i: usize = 0;
    while i < l.len()
        invariant
            i <= l.len(),
            forall|j: int| 0 <= j < i ==> (#[trigger] l@[j])@ != k@,
        decreases l.len() - i,
    {
        if str_eq(l[i].as_str(), k) {
            return true;
        }
        i = i + 1;
    }
    false
}

impl HeartbeatScheduler {
    /// A running scheduler.
    pub fn new() -> (r: HeartbeatScheduler)
        ensures
            r.running,
    {
        HeartbeatScheduler { running: true }
    }

    /// Asks the scheduler to stop.
    pub fn stop(&mut self)
        ensures
            !final(self).running,
    {
        self.running = false;
    }

    /// One scheduling round. Without TCP back-up every running sender stops and none
    /// starts. Otherwise senders of devices no longer known stop, and every known device
    /// that is paired, has no sender and is not this device gets one (none when the local id
    /// is unknown).
    pub fn plan_round(
        tcp_backup: bool,
        running: &Vec<String>,
        known: &Vec<(String, String)>,
        paired: &Vec<String>,
        local_uuid: &str,
    ) -> (r: SchedulerPlan)
        ensures
            !tcp_backup ==> r.stop@ == running@ && r.start@.len() == 0,
            tcp_backup ==> r.stop@ == running@.filter(gone(known@)),
            tcp_backup && local_uuid@.len() == 0 ==> r.start@.len() == 0,
            tcp_backup && local_uuid@.len() > 0 ==> r.start@ == known@.filter(needs_sender(running@, paired@, local_uuid@)),
    {
        if !tcp_backup {
            let mut all: Vec<String> = Vec::new();
            let mut i: usize = 0;
            while i < running.len()
                invariant
                    i <= running.len(),
                    all@ == running@.take(i as int),
                decreases running.len() - i,
            {
                all.push(running[i].clone());
                i = i + 1;
                assert(all@ =~= running@.take(i as int));
            }
            assert(running@.take(running.len() as int) =~= running@);
            return SchedulerPlan { stop: all, start: Vec::new() };
        }
        let mut stop: Vec<String> = Vec::new();
        let mut i: usize = 0;
        assert(running@.take(0).filter(gone(known@)) =~= Seq::<String>::empty()) by {
            reveal(Seq::filter);
        }
        while i < running.len()
            invariant
                i <= running.len(),
                stop@ == running@.take(i as int).filter(gone(known@)),
            decreases running.len() - i,
        {
            proof {
                assert(running@.take(i + 1) =~= running@.take(i as int).push(running@[i as int]));
                running@.take(i as int).lemma_filter_push(running@[i as int], gone(known@));
            }
            if !crate::vecmap::contains_key(known, running[i].as_str()) {
                stop.push(running[i].clone());
            }
            i = i + 1;
        }
        assert(running@.take(running.len() as int) =~= running@);
        let mut start: Vec<(String, String)> = Vec::new();
        if local_uuid.is_empty() {
            return SchedulerPlan { stop, start };
        }
        let ghost pred = needs_sender(running@, paired@, local_uuid@);
        let mut j: usize = 0;
        assert(known@.take(0).filter(pred) =~= Seq::<(String, String)>::empty()) by {
            reveal(Seq::filter);
        }
        while j < known.len()
            invariant
                j <= known.len(),
                pred == needs_sender(running@, paired@, local_uuid@),
                start@ == known@.take(j as int).filter(pred),
            decreases known.len() - j,
        {
            proof {
                assert(known@.take(j + 1) =~= known@.take(j as int).push(known@[j as int]));
                known@.take(j as int).lemma_filter_push(known@[j as int], pred);
            }
            let uuid = &known[j].0;
            if !list_contains(running, uuid.as_str()) && list_contains(paired, uuid.as_str())
                && !str_eq(uuid.as_str(), local_uuid) {
                start.push((known[j].0.clone(), known[j].1.clone()));
            }
            j = j + 1;
        }
        assert(known@.take(known.len() as int) =~= known@);
        SchedulerPlan { stop, start }
    }
}

/// Law: the back-off never exceeds its bound once the current interval is within it, and a
/// delivered heartbeat restores the base interval.
pub proof fn law_backoff_bounded(current: u64, base: u64)
    requires
        current <= MAX_HEARTBEAT_INTERVAL_MS,
    ensures
        next_interval_spec(current, base, false) <= MAX_HEARTBEAT_INTERVAL_MS,
        next_interval_spec(current, base, false) >= current,
        next_interval_spec(current, base, true) == base,
{
}

/// Law: a device heard from at `t` is not timed out at any time within `timeout` of `t`.
pub proof fn law_fresh_heartbeat_not_timed_out(m: Seq<(String, i64)>, uuid: String, t: i64, now: i64, timeout: i64)
    requires
        now - t <= timeout,
    ensures
        !timed_out(without_key(m, uuid@).push((uuid, t)), now, timeout).contains(uuid@),
{
    let m2 = without_key(m, uuid@).push((uuid, t));
    assert(m2.drop_last() =~= without_key(m, uuid@));
    lemma_timed_out_members(without_key(m, uuid@), now, timeout);
    crate::vecmap::lemma_without_key_absent(m, uuid@);
    lemma_absent_not_timed_out(without_key(m, uuid@), uuid@, now, timeout);
}

/// Every timed-out device is a key of the table.
proof fn lemma_timed_out_members(m: Seq<(String, i64)>, now: i64, timeout: i64)
    ensures
        forall|k: Seq<char>| #[trigger] timed_out(m, now, timeout).contains(k) ==> has_key(m, k),
    decreases m.len(),
{
    if m.len() > 0 {
        lemma_timed_out_members(m.drop_last(), now, timeout);
        assert forall|k: Seq<char>| #[trigger] timed_out(m, now, timeout).contains(k) implies has_key(m, k) by {
            if k != m.last().0@ {
                let p = timed_out(m.drop_last(), now, timeout);
                let q = timed_out(m, now, timeout);
                let i = choose|i: int| 0 <= i < q.len() && q[i] == k;
                if now - m.last().1 > timeout {
                    assert(q == p.push(m.last().0@));
                    assert(i < p.len());
                    assert(p[i] == k);
                } else {
                    assert(q == p);
                }
                assert(p.contains(k));
            }
        }
    }
}

/// A device without an entry is never timed out.
proof fn lemma_absent_not_timed_out(m: Seq<(String, i64)>, k: Seq<char>, now: i64, timeout: i64)
    requires
        last_value(m, k) is None,
    ensures
        !timed_out(m, now, timeout).contains(k),
{
    lemma_timed_out_members(m, now, timeout);
    if timed_out(m, now, timeout).contains(k) {
        assert(has_key(m, k));
    }
}

} // verus!
