//! Registry of the runtime state of known devices (heartbeats, connections, discovery),
//! kept sorted by device id.
use vstd::prelude::*;
use vstd::string::*;
use crate::text::{lemma_text_lt_irreflexive, lemma_text_lt_total, lemma_text_lt_transitive, owned, str_eq, str_lt, text_lt};

verus! {

/// Battery level meaning "unknown": values outside `[-100, 100]` are unknown.
pub const BATTERY_UNKNOWN: i32 = -101;

/// Current Unix time in seconds by the system clock: `secs_of_reading` of its reading.
pub fn now_sec() -> (r: i64)
    ensures
        r >= 0,
        exists|reading: Option<u64>| r == #[trigger] crate::timestamp::secs_of_reading_spec(reading),
{
    let reading = match crate::timestamp::clock_since_epoch() {
        Some(d) => Some(crate::timestamp::duration_secs(&d)),
        None => None,
    };
    crate::timestamp::secs_of_reading(reading)
}

/// Snapshot of one device.
#[derive(Debug)]
pub struct RegisteredDevice {
    pub uuid: String,
    pub name: String,
    pub ip: String,
    pub port: u16,
    pub battery: i32,
    pub device_type: String,
    pub last_seen: i64,
    pub connected: bool,
}

/// A device as a mathematical value.
pub struct DeviceView {
    pub uuid: Seq<char>,
    pub name: Seq<char>,
    pub ip: Seq<char>,
    pub port: u16,
    pub battery: i32,
    pub device_type: Seq<char>,
    pub last_seen: i64,
    pub connected: bool,
}

impl View for RegisteredDevice {
    type V = DeviceView;

    open spec fn view(&self) -> DeviceView {
        DeviceView {
            uuid: self.uuid@,
            name: self.name@,
            ip: self.ip@,
            port: self.port,
            battery: self.battery,
            device_type: self.device_type@,
            last_seen: self.last_seen,
            connected: self.connected,
        }
    }
}

/// The registry.
pub struct DeviceRegistry {
    devices: Vec<RegisteredDevice>,
}

/// Devices strictly sorted by id (so no id occurs twice).
pub open spec fn sorted_by_id(s: Seq<DeviceView>) -> bool {
    forall|i: int, j: int| 0 <= i < j < s.len() ==> text_lt(#[trigger] s[i].uuid, #[trigger] s[j].uuid)
}

/// The device with id `k`, if any.
pub open spec fn find_device(s: Seq<DeviceView>, k: Seq<char>) -> Option<DeviceView> {
    if exists|i: int| 0 <= i < s.len() && (#[trigger] s[i]).uuid == k {
        Some(s[choose|i: int| 0 <= i < s.len() && (#[trigger] s[i]).uuid == k])
    } else {
        None
    }
}

/// An address worth remembering: not empty and not `0.0.0.0`.
pub open spec fn usable_ip(ip: Seq<char>) -> bool {
    ip.len() > 0 && ip != "0.0.0.0"@
}

/// A known battery level.
pub open spec fn known_battery(b: i32) -> bool {
    -100 <= b <= 100
}

/// The entry a new device starts from.
pub open spec fn blank_device(k: Seq<char>, last_seen: i64) -> DeviceView {
    DeviceView {
        uuid: k,
        name: Seq::empty(),
        ip: Seq::empty(),
        port: 0,
        battery: BATTERY_UNKNOWN,
        device_type: Seq::empty(),
        last_seen,
        connected: false,
    }
}

/// The current entry of `k`, or a blank one.
pub open spec fn base_device(s: Seq<DeviceView>, k: Seq<char>, blank_seen: i64) -> DeviceView {
    match find_device(s, k) {
        Some(d) => d,
        None => blank_device(k, blank_seen),
    }
}

/// `d` with the given identity fields merged in: only non-empty names and types, usable
/// addresses, non-zero ports and known battery levels replace what was there.
pub open spec fn merge_fields(
    d: DeviceView,
    name: Seq<char>,
    ip: Seq<char>,
    port: u16,
    battery: i32,
    device_type: Seq<char>,
) -> DeviceView {
    DeviceView {
        name: if name.len() > 0 { name } else { d.name },
        ip: if usable_ip(ip) { ip } else { d.ip },
        port: if port > 0 { port } else { d.port },
        battery: if known_battery(battery) { battery } else { d.battery },
        device_type: if device_type.len() > 0 { device_type } else { d.device_type },
        ..d
    }
}

/// The `last_seen` of an entry (0 for none).
pub open spec fn seen_of(d: Option<DeviceView>) -> i64 {
    match d {
        Some(v) => v.last_seen,
        None => 0,
    }
}

/// `s2` is `s` with the entry of `k` set to `d` and every other entry unchanged.
pub open spec fn replaced(s: Seq<DeviceView>, s2: Seq<DeviceView>, k: Seq<char>, d: Option<DeviceView>) -> bool {
    &&& sorted_by_id(s2)
    &&& find_device(s2, k) == d
    &&& forall|o: Seq<char>| o != k ==> #[trigger] find_device(s2, o) == find_device(s, o)
}

/// In a sorted sequence an entry is found at its own index.
pub proof fn lemma_find_at(s: Seq<DeviceView>, i: int)
    requires
        sorted_by_id(s),
        0 <= i < s.len(),
    ensures
        find_device(s, s[i].uuid) == Some(s[i]),
{
    let k = s[i].uuid;
    let j = choose|j: int| 0 <= j < s.len() && (#[trigger] s[j]).uuid == k;
    if j < i {
        assert(text_lt(s[j].uuid, s[i].uuid));
        lemma_text_lt_irreflexive(k);
    } else if j > i {
        assert(text_lt(s[i].uuid, s[j].uuid));
        lemma_text_lt_irreflexive(k);
    }
}

impl RegisteredDevice {
    /// A copy of the device.
    pub fn duplicate(&self) -> (r: RegisteredDevice)
        ensures
            r@ == self@,
    {
        RegisteredDevice {
            uuid: self.uuid.clone(),
            name: self.name.clone(),
            ip: self.ip.clone(),
            port: self.port,
            battery: self.battery,
            device_type: self.device_type.clone(),
            last_seen: self.last_seen,
            connected: self.connected,
        }
    }
}

fn usable_ip_exec(ip: &str) -> (r: bool)
    ensures
        r == usable_ip(ip@),
{
    !ip.is_empty() && !str_eq(ip, "0.0.0.0")
}

impl View for DeviceRegistry {
    type V = Seq<DeviceView>;

    closed spec fn view(&self) -> Seq<DeviceView> {
        self.devices@.map_values(|d: RegisteredDevice| d@)
    }
}

impl DeviceRegistry {
    /// The registry is sorted by id.
    pub open spec fn wf(&self) -> bool {
        sorted_by_id(self@)
    }

    /// An empty registry.
    pub fn new() -> (r: DeviceRegistry)
        ensures
            r.wf(),
            r@.len() == 0,
    {
        let r = DeviceRegistry { devices: Vec::new() };
        assert(r@ =~= Seq::<DeviceView>::empty());
        r
    }

    /// Position of `k`: the first entry not below it, and whether that entry is `k`.
    fn locate(&self, k: &str) -> (r: (usize, bool))
        requires
            self.wf(),
        ensures
            r.0 <= self@.len(),
            forall|j: int| 0 <= j < r.0 ==> text_lt(#[trigger] self@[j].uuid, k@),
            forall|j: int| r.0 <= j < self@.len() && !r.1 ==> text_lt(k@, #[trigger] self@[j].uuid),
            r.1 == (r.0 < self@.len() && self@[r.0 as int].uuid == k@),
            !r.1 ==> find_device(self@, k@) is None,
    {
        let ghost s = self@;
        let mut i: usize = 0;
        let mut stop = false;
        while i < self.devices.len() && !stop
            invariant
                i <= self.devices.len(),
                s == self@,
                s.len() == self.devices.len(),
                forall|j: int| 0 <= j < i ==> text_lt(#[trigger] s[j].uuid, k@),
                stop ==> i < s.len() && !text_lt(s[i as int].uuid, k@),
            decreases self.devices.len() - i, (if stop { 0int } else { 1int }),
        {
            assert(s[i as int] == self.devices@[i as int]@);
            if !str_lt(self.devices[i].uuid.as_str(), k) {
                stop = true;
            } else {
                i = i + 1;
            }
        }
        let found = i < self.devices.len() && str_eq(self.devices[i].uuid.as_str(), k);
        proof {
            if i < s.len() {
                assert(s[i as int] == self.devices@[i as int]@);
                assert(!text_lt(s[i as int].uuid, k@));
                if !found {
                    lemma_text_lt_total(s[i as int].uuid, k@);
                    assert forall|j: int| i <= j < s.len() implies text_lt(k@, #[trigger] s[j].uuid) by {
                        if j > i {
                            lemma_text_lt_transitive(k@, s[i as int].uuid, s[j].uuid);
                        }
                    }
                }
            }
            if !found {
                assert forall|j: int| 0 <= j < s.len() implies (#[trigger] s[j]).uuid != k@ by {
                    if j < i {
                        lemma_text_lt_irreflexive(k@);
                    } else {
                        lemma_text_lt_irreflexive(k@);
                    }
                }
            }
        }
        (i, found)
    }

    /// Replaces the entry at `pos` (which has id `k`) by `d`.
    fn put_at(&mut self, pos: usize, d: RegisteredDevice, Ghost(k): Ghost<Seq<char>>)
        requires
            old(self).wf(),
            pos < old(self)@.len(),
            old(self)@[pos as int].uuid == k,
            d@.uuid == k,
        ensures
            final(self).wf(),
            replaced(old(self)@, final(self)@, k, Some(d@)),
    {
        let ghost s = self@;
        let ghost dv = d@;
        self.devices.set(pos, d);
        let ghost s2 = self@;
        assert(s2 =~= s.update(pos as int, dv));
        assert(sorted_by_id(s2)) by {
            assert forall|i: int, j: int| 0 <= i < j < s2.len() implies text_lt(#[trigger] s2[i].uuid, #[trigger] s2[j].uuid) by {
                assert(s2[i].uuid == s[i].uuid);
                assert(s2[j].uuid == s[j].uuid);
            }
        }
        proof { lemma_find_at(s2, pos as int); }
        assert forall|o: Seq<char>| o != k implies #[trigger] find_device(s2, o) == find_device(s, o) by {
            if exists|i: int| 0 <= i < s.len() && (#[trigger] s[i]).uuid == o {
                let i = choose|i: int| 0 <= i < s.len() && (#[trigger] s[i]).uuid == o;
                lemma_find_at(s, i);
                assert(s2[i] == s[i]);
                lemma_find_at(s2, i);
            } else {
                assert forall|i: int| 0 <= i < s2.len() implies (#[trigger] s2[i]).uuid != o by {
                    if i != pos {
                        assert(s2[i] == s[i]);
                    }
                }
            }
        }
    }

    /// Inserts `d` (id `k`, not yet present) at `pos`, its sorted place.
    fn insert_at(&mut self, pos: usize, d: RegisteredDevice, Ghost(k): Ghost<Seq<char>>)
        requires
            old(self).wf(),
            pos <= old(self)@.len(),
            d@.uuid == k,
            forall|j: int| 0 <= j < pos ==> text_lt(#[trigger] old(self)@[j].uuid, k),
            forall|j: int| pos <= j < old(self)@.len() ==> text_lt(k, #[trigger] old(self)@[j].uuid),
        ensures
            final(self).wf(),
            replaced(old(self)@, final(self)@, k, Some(d@)),
    {
        let ghost s = self@;
        let ghost dv = d@;
        self.devices.insert(pos, d);
        let ghost s2 = self@;
        assert(s2 =~= s.insert(pos as int, dv));
        assert(sorted_by_id(s2)) by {
            assert forall|i: int, j: int| 0 <= i < j < s2.len() implies text_lt(#[trigger] s2[i].uuid, #[trigger] s2[j].uuid) by {
                if j < pos {
                } else if j == pos {
                    assert(s2[i] == s[i]);
                } else if i < pos {
                    assert(s2[i] == s[i]);
                    assert(s2[j] == s[j - 1]);
                    lemma_text_lt_transitive(s[i].uuid, k, s[j - 1].uuid);
                } else if i == pos {
                    assert(s2[j] == s[j - 1]);
                } else {
                    assert(s2[i] == s[i - 1]);
                    assert(s2[j] == s[j - 1]);
                }
            }
        }
        proof { lemma_find_at(s2, pos as int); }
        assert forall|o: Seq<char>| o != k implies #[trigger] find_device(s2, o) == find_device(s, o) by {
            if exists|i: int| 0 <= i < s.len() && (#[trigger] s[i]).uuid == o {
                let i = choose|i: int| 0 <= i < s.len() && (#[trigger] s[i]).uuid == o;
                lemma_find_at(s, i);
                if i < pos {
                    assert(s2[i] == s[i]);
                    lemma_find_at(s2, i);
                } else {
                    assert(s2[i + 1] == s[i]);
                    lemma_find_at(s2, i + 1);
                }
            } else {
                assert forall|i: int| 0 <= i < s2.len() implies (#[trigger] s2[i]).uuid != o by {
                    if i < pos {
                        assert(s2[i] == s[i]);
                    } else if i > pos {
                        assert(s2[i] == s[i - 1]);
                    }
                }
            }
        }
    }

    /// Merges the given fields into the entry of `uuid` (created blank if missing). With
    /// `touch`, `last_seen` becomes `now`.
    fn merge(
        &mut self,
        uuid: &str,
        name: &str,
        ip: &str,
        port: u16,
        battery: i32,
        device_type: &str,
        touch: bool,
        now: i64,
    )
        requires
            old(self).wf(),
        ensures
            final(self).wf(),
            replaced(old(self)@, final(self)@, uuid@, Some({
                let m = merge_fields(base_device(old(self)@, uuid@, 0), name@, ip@, port, battery, device_type@);
                if touch { DeviceView { last_seen: now, ..m } } else { m }
            })),
    {
        let (pos, found) = self.locate(uuid);
        let mut d = if found {
            proof {
                lemma_find_at(self@, pos as int);
            }
            self.devices[pos].duplicate()
        } else {
            RegisteredDevice {
                uuid: owned(uuid),
                name: String::new(),
                ip: String::new(),
                port: 0,
                battery: BATTERY_UNKNOWN,
                device_type: String::new(),
                last_seen: 0,
                connected: false,
            }
        };
        assert(d@ == base_device(self@, uuid@, 0));
        if !name.is_empty() {
            d.name = owned(name);
        }
        if usable_ip_exec(ip) {
            d.ip = owned(ip);
        }
        if port > 0 {
            d.port = port;
        }
        if -100 <= battery && battery <= 100 {
            d.battery = battery;
        }
        if !device_type.is_empty() {
            d.device_type = owned(device_type);
        }
        if touch {
            d.last_seen = now;
        }
        if found {
            self.put_at(pos, d, Ghost(uuid@));
        } else {
            self.insert_at(pos, d, Ghost(uuid@));
        }
    }

    /// Registers or refreshes a device at time `now` (heartbeat, discovery): the given
    /// non-empty fields replace the stored ones and `last_seen` becomes `now`. An empty id is
    /// ignored.
    pub fn upsert_at(&mut self, uuid: &str, name: &str, ip: &str, port: u16, battery: i32, device_type: &str, now: i64)
        requires
            old(self).wf(),
        ensures
            final(self).wf(),
            uuid@.len() == 0 ==> final(self)@ == old(self)@,
            uuid@.len() > 0 ==> replaced(old(self)@, final(self)@, uuid@, Some(DeviceView {
                last_seen: now,
                ..merge_fields(base_device(old(self)@, uuid@, 0), name@, ip@, port, battery, device_type@)
            })),
    {
        if uuid.is_empty() {
            return;
        }
        self.merge(uuid, name, ip, port, battery, device_type, true, now);
    }

    /// Registers or refreshes a device now (by the system clock); see `upsert_at`.
    pub fn upsert(&mut self, uuid: &str, name: &str, ip: &str, port: u16, battery: i32, device_type: &str)
        requires
            old(self).wf(),
        ensures
            final(self).wf(),
            uuid@.len() == 0 ==> final(self)@ == old(self)@,
            uuid@.len() > 0 ==> replaced(old(self)@, final(self)@, uuid@, Some(DeviceView {
                last_seen: seen_of(find_device(final(self)@, uuid@)),
                ..merge_fields(base_device(old(self)@, uuid@, 0), name@, ip@, port, battery, device_type@)
            })),
    {
        let now = now_sec();
        self.upsert_at(uuid, name, ip, port, battery, device_type, now);
    }

    /// Registers identity fields without refreshing `last_seen` (handshake). An empty id is
    /// ignored.
    pub fn upsert_no_seen(&mut self, uuid: &str, name: &str, ip: &str, port: u16, battery: i32, device_type: &str)
        requires
            old(self).wf(),
        ensures
            final(self).wf(),
            uuid@.len() == 0 ==> final(self)@ == old(self)@,
            uuid@.len() > 0 ==> replaced(old(self)@, final(self)@, uuid@, Some(
                merge_fields(base_device(old(self)@, uuid@, 0), name@, ip@, port, battery, device_type@))),
    {
        if uuid.is_empty() {
            return;
        }
        self.merge(uuid, name, ip, port, battery, device_type, false, 0);
    }

    /// A TCP connection to `uuid` (from `ip`) is up at time `now`: the device is connected
    /// and seen now; a usable address replaces the stored one.
    pub fn mark_connected_at(&mut self, uuid: &str, ip: &str, now: i64)
        requires
            old(self).wf(),
        ensures
            final(self).wf(),
            replaced(old(self)@, final(self)@, uuid@, Some({
                let b = base_device(old(self)@, uuid@, now);
                DeviceView { ip: if usable_ip(ip@) { ip@ } else { b.ip }, connected: true, last_seen: now, ..b }
            })),
    {
        let (pos, found) = self.locate(uuid);
        let mut d = if found {
            proof {
                lemma_find_at(self@, pos as int);
            }
            self.devices[pos].duplicate()
        } else {
            RegisteredDevice {
                uuid: owned(uuid),
                name: String::new(),
                ip: String::new(),
                port: 0,
                battery: BATTERY_UNKNOWN,
                device_type: String::new(),
                last_seen: now,
                connected: false,
            }
        };
        if usable_ip_exec(ip) {
            d.ip = owned(ip);
        }
        d.connected = true;
        d.last_seen = now;
        if found {
            self.put_at(pos, d, Ghost(uuid@));
        } else {
            self.insert_at(pos, d, Ghost(uuid@));
        }
    }

    /// A TCP connection to `uuid` is up now (by the system clock); see `mark_connected_at`.
    pub fn mark_connected(&mut self, uuid: &str, ip: &str)
        requires
            old(self).wf(),
        ensures
            final(self).wf(),
            ({
                let now = seen_of(find_device(final(self)@, uuid@));
                replaced(old(self)@, final(self)@, uuid@, Some({
                    let b = base_device(old(self)@, uuid@, now);
                    DeviceView { ip: if usable_ip(ip@) { ip@ } else { b.ip }, connected: true, last_seen: now, ..b }
                }))
            }),
    {
        let now = now_sec();
        self.mark_connected_at(uuid, ip, now);
    }

    /// The TCP connection to `uuid` is down: a known device is marked disconnected.
    pub fn mark_disconnected(&mut self, uuid: &str)
        requires
            old(self).wf(),
        ensures
            final(self).wf(),
            replaced(old(self)@, final(self)@, uuid@, match find_device(old(self)@, uuid@) {
                Some(d) => Some(DeviceView { connected: false, ..d }),
                None => None,
            }),
    {
        let (pos, found) = self.locate(uuid);
        if found {
            proof {
                lemma_find_at(self@, pos as int);
            }
            let mut d = self.devices[pos].duplicate();
            d.connected = false;
            self.put_at(pos, d, Ghost(uuid@));
        } else {
            assert forall|o: Seq<char>| o != uuid@ implies #[trigger] find_device(self@, o) == find_device(self@, o) by {}
        }
    }

    /// Forgets `uuid`.
    pub fn remove(&mut self, uuid: &str)
        requires
            old(self).wf(),
        ensures
            final(self).wf(),
            replaced(old(self)@, final(self)@, uuid@, None),
    {
        let (pos, found) = self.locate(uuid);
        if found {
            let ghost s = self@;
            self.devices.remove(pos);
            let ghost s2 = self@;
            assert(s2 =~= s.remove(pos as int));
            assert(sorted_by_id(s2)) by {
                assert forall|i: int, j: int| 0 <= i < j < s2.len() implies text_lt(#[trigger] s2[i].uuid, #[trigger] s2[j].uuid) by {
                    if i < pos {
                        assert(s2[i] == s[i]);
                    } else {
                        assert(s2[i] == s[i + 1]);
                    }
                    if j < pos {
                        assert(s2[j] == s[j]);
                    } else {
                        assert(s2[j] == s[j + 1]);
                    }
                }
            }
            assert forall|i: int| 0 <= i < s2.len() implies (#[trigger] s2[i]).uuid != uuid@ by {
                if i < pos {
                    assert(s2[i] == s[i]);
                    assert(text_lt(s[i].uuid, s[pos as int].uuid));
                    lemma_text_lt_irreflexive(uuid@);
                } else {
                    assert(s2[i] == s[i + 1]);
                    assert(text_lt(s[pos as int].uuid, s[i + 1].uuid));
                    lemma_text_lt_irreflexive(uuid@);
                }
            }
            assert forall|o: Seq<char>| o != uuid@ implies #[trigger] find_device(s2, o) == find_device(s, o) by {
                if exists|i: int| 0 <= i < s.len() && (#[trigger] s[i]).uuid == o {
                    let i = choose|i: int| 0 <= i < s.len() && (#[trigger] s[i]).uuid == o;
                    lemma_find_at(s, i);
                    if i < pos {
                        assert(s2[i] == s[i]);
                        lemma_find_at(s2, i);
                    } else {
                        assert(s2[i - 1] == s[i]);
                        lemma_find_at(s2, i - 1);
                    }
                } else {
                    assert forall|i: int| 0 <= i < s2.len() implies (#[trigger] s2[i]).uuid != o by {
                        if i < pos {
                            assert(s2[i] == s[i]);
                        } else {
                            assert(s2[i] == s[i + 1]);
                        }
                    }
                }
            }
        }
    }

    /// All devices, sorted by id.
    pub fn snapshot(&self) -> (r: Vec<RegisteredDevice>)
        requires
            self.wf(),
        ensures
            r@.map_values(|d: RegisteredDevice| d@) == self@,
            sorted_by_id(r@.map_values(|d: RegisteredDevice| d@)),
    {
        let mut out: Vec<RegisteredDevice> = Vec::new();
        let mut i: usize = 0;
        while i < self.devices.len()
            invariant
                i <= self.devices.len(),
                out@.map_values(|d: RegisteredDevice| d@) == self@.take(i as int),
                self@.len() == self.devices.len(),
            decreases self.devices.len() - i,
        {
            let d = self.devices[i].duplicate();
            let ghost prev = out@;
            assert(self@[i as int] == self.devices@[i as int]@);
            out.push(d);
            assert(out@ == prev.push(d));
            i = i + 1;
            assert(out@.map_values(|d: RegisteredDevice| d@) =~= prev.map_values(|d: RegisteredDevice| d@).push(d@));
            assert(self@.take(i as int) =~= self@.take(i - 1).push(self@[i - 1]));
        }
        assert(self@.take(i as int) =~= self@);
        out
    }

    /// The device `uuid`, if known.
    pub fn get(&self, uuid: &str) -> (r: Option<RegisteredDevice>)
        requires
            self.wf(),
        ensures
            match r {
                Some(d) => find_device(self@, uuid@) == Some(d@),
                None => find_device(self@, uuid@) is None,
            },
    {
        let (pos, found) = self.locate(uuid);
        if found {
            proof {
                lemma_find_at(self@, pos as int);
            }
            Some(self.devices[pos].duplicate())
        } else {
            None
        }
    }
}

/// Law: a refresh that carries no identity (empty name and type, no usable address, port
/// 0, unknown battery) leaves the stored identity as it was.
pub proof fn law_empty_refresh_keeps_identity(d: DeviceView, ip: Seq<char>, battery: i32)
    requires
        !usable_ip(ip),
        !known_battery(battery),
    ensures
        merge_fields(d, Seq::empty(), ip, 0, battery, Seq::empty()) == d,
{
    assert(merge_fields(d, Seq::empty(), ip, 0, battery, Seq::empty()) =~= d);
}

/// Law: an unknown battery level never replaces a stored one.
pub proof fn law_unknown_battery_kept(d: DeviceView, name: Seq<char>, ip: Seq<char>, port: u16, battery: i32, device_type: Seq<char>)
    requires
        !known_battery(battery),
    ensures
        merge_fields(d, name, ip, port, battery, device_type).battery == d.battery,
        merge_fields(d, name, ip, port, battery, device_type).uuid == d.uuid,
        merge_fields(d, name, ip, port, battery, device_type).connected == d.connected,
{
}

/// Law: a known battery level (-100..=100) reported for a device replaces the stored level,
/// whatever was stored before.
pub proof fn law_known_battery_replaces(d: DeviceView, name: Seq<char>, ip: Seq<char>, port: u16, battery: i32, device_type: Seq<char>)
    requires
        -100 <= battery <= 100,
    ensures
        merge_fields(d, name, ip, port, battery, device_type).battery == battery,
{
}

/// Law: of two reports with known battery levels, the later level is the one kept.
pub proof fn law_latest_known_battery_wins(
    d: DeviceView,
    name: Seq<char>,
    ip: Seq<char>,
    port: u16,
    first: i32,
    second: i32,
    device_type: Seq<char>,
)
    requires
        -100 <= first <= 100,
        -100 <= second <= 100,
    ensures
        merge_fields(merge_fields(d, name, ip, port, first, device_type), name, ip, port, second, device_type).battery == second,
{
}

/// Law: each field a report carries replaces the stored one: a non-empty name or device type,
/// an address other than empty or `0.0.0.0`, a non-zero port; the id, last-seen time and
/// connection state are not touched.
pub proof fn law_reported_fields_replace(d: DeviceView, name: Seq<char>, ip: Seq<char>, port: u16, battery: i32, device_type: Seq<char>)
    ensures
        name.len() > 0 ==> merge_fields(d, name, ip, port, battery, device_type).name == name,
        (ip.len() > 0 && ip != "0.0.0.0"@) ==> merge_fields(d, name, ip, port, battery, device_type).ip == ip,
        port != 0 ==> merge_fields(d, name, ip, port, battery, device_type).port == port,
        device_type.len() > 0 ==> merge_fields(d, name, ip, port, battery, device_type).device_type == device_type,
        merge_fields(d, name, ip, port, battery, device_type).uuid == d.uuid,
        merge_fields(d, name, ip, port, battery, device_type).last_seen == d.last_seen,
        merge_fields(d, name, ip, port, battery, device_type).connected == d.connected,
{
}

} // verus!
