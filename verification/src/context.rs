//! The core's state: the component states, the local identity, the address book of peers,
//! the pairing context, and the bookkeeping of persistence.
use vstd::prelude::*;
use vstd::string::*;
use crate::app_sync::AppSyncState;
use crate::clipboard::ClipboardState;
use crate::crypto::b64::{b64_encode, base64_text};
use crate::crypto::keys::{CryptoState, DeviceKeyEntry};
use crate::dedup::DedupState;
use crate::device_registry::{DeviceRegistry, DeviceView, RegisteredDevice, find_device, merge_fields, base_device, replaced};
use crate::discovery::DiscoveryState;
use crate::filter::FilterState;
use crate::heartbeat::HeartbeatState;
use crate::persistence::PersistedDevice;
use crate::processing::{decode_peer_name, peer_name_spec};
use crate::protocol::codec::{DEFAULT_TCP_PORT, decode_discovery_request, discovery_spec, discovery_text, encode_discovery_request};
use crate::text::{trim, trim_seq, string_of, utf8_text};
use crate::state_merge::StateMerge;
use crate::text::{owned, str_eq, str_lt, text_lt, lemma_text_lt_irreflexive, lemma_text_lt_total, lemma_text_lt_transitive};
use crate::vecmap::{contains_key, has_key, insert_key, last_value, lookup, without_key};
use crate::sorted_set::{insert_keys, key_set, strictly_sorted, views};
use crate::json_model::{JsonLeaf, LeafView, array_text, items_view, members_view, object_text, write_array, write_object};
use crate::text::{dec_int, push_int};
use crate::device_registry::BATTERY_UNKNOWN;

verus! {

/// What the core knows of a peer's long-term key.
pub struct DeviceState {
    pub peer_lt_pub: Option<String>,
}

/// The pairing in progress.
pub struct PairingContext {
    pub peer_uuid: String,
    pub peer_spake2_pub: String,
    pub peer_lt_pub: Option<String>,
}

/// What this device announces: id, base64 name, battery and type.
pub struct BroadcastInfo {
    pub uuid: String,
    pub name_b64: String,
    pub battery: i32,
    pub device_type: String,
}

/// Whether the broadcast worker should keep running.
pub struct BroadcastHandle {
    pub running: bool,
}

/// The core's state.
pub struct CoreContext {
    pub crypto: CryptoState,
    pub heartbeat: HeartbeatState,
    pub discovery: DiscoveryState,
    pub dedup: DedupState,
    pub clipboard: ClipboardState,
    pub app_sync: AppSyncState,
    pub filter: FilterState,
    pub registry: DeviceRegistry,
    pub state_merge: StateMerge,
    pub pairing_ctx: Option<PairingContext>,
    pub expected_pairing_code: Option<String>,
    pub pairing_code: Option<String>,
    /// Expiry (ms) of the pairing code.
    pub pairing_code_expiry_ms: Option<u64>,
    pub broadcast_info: Option<BroadcastInfo>,
    pub broadcast_handle: Option<BroadcastHandle>,
    /// device -> address (from heartbeats, discovery and connections).
    pub device_ips: Vec<(String, String)>,
    /// Heartbeat mode: `false` broadcast, `true` directed TCP heartbeats.
    pub heartbeat_tcp_backup: bool,
    /// Whether the database is open.
    pub persistence_open: bool,
    /// Whether loading was attempted.
    pub persistence_loaded: bool,
    /// Whether memory and database differ.
    pub persistence_dirty: bool,
    /// Whether the platform confirmed the identity source (writes allowed).
    pub persistence_activated: bool,
    pub local_uuid: String,
    /// device -> stored row.
    pub persisted_devices: Vec<(String, PersistedDevice)>,
    /// Devices whose rows are deleted at the next flush.
    pub pending_device_deletions: Vec<String>,
    /// Database path used instead of the default one.
    pub db_override: Option<String>,
}

/// `r` is the stored row of `uuid` renamed `name` at time `now`, from its earlier row `old`
/// (none: a new row, created now, not accepted, with no keys and no address).
pub open spec fn renamed_row(r: PersistedDevice, old: Option<PersistedDevice>, uuid: Seq<char>, name: Seq<char>, now: i64) -> bool {
    &&& r.display_name@ == name
    &&& r.updated_at == now
    &&& match old {
        Some(o) => {
            &&& r.uuid == o.uuid
            &&& r.public_key == o.public_key
            &&& r.shared_secret == o.shared_secret
            &&& r.is_accepted == o.is_accepted
            &&& r.last_ip == o.last_ip
            &&& r.last_port == o.last_port
            &&& r.created_at == o.created_at
        },
        None => {
            &&& r.uuid@ == uuid
            &&& r.public_key@.len() == 0
            &&& r.shared_secret@.len() == 0
            &&& !r.is_accepted
            &&& r.last_ip@.len() == 0
            &&& r.last_port == 0
            &&& r.created_at == now
        },
    }
}

impl CoreContext {
    /// Fresh state: empty components, nothing loaded, no identity.
    pub fn new() -> (r: CoreContext)
        ensures
            r.registry.wf(),
            r.local_uuid@.len() == 0,
            !r.persistence_open && !r.persistence_loaded && !r.persistence_dirty && !r.persistence_activated,
            r.broadcast_info is None,
            r.device_ips@.len() == 0,
            r.db_override is None,
    {
        CoreContext {
            crypto: CryptoState::new(),
            heartbeat: HeartbeatState::new(),
            discovery: DiscoveryState::new(),
            dedup: DedupState::new(),
            clipboard: ClipboardState::new(),
            app_sync: AppSyncState::new(),
            filter: FilterState::new(),
            registry: DeviceRegistry::new(),
            state_merge: StateMerge::new(),
            pairing_ctx: None,
            expected_pairing_code: None,
            pairing_code: None,
            pairing_code_expiry_ms: None,
            broadcast_info: None,
            broadcast_handle: None,
            device_ips: Vec::new(),
            heartbeat_tcp_backup: false,
            persistence_open: false,
            persistence_loaded: false,
            persistence_dirty: false,
            persistence_activated: false,
            local_uuid: String::new(),
            persisted_devices: Vec::new(),
            pending_device_deletions: Vec::new(),
            db_override: None,
        }
    }

    /// Fresh state using the database at `path` (test isolation).
    pub fn with_db_override(path: String) -> (r: CoreContext)
        ensures
            r.registry.wf(),
            r.db_override == Some(path),
            r.local_uuid@.len() == 0,
            !r.persistence_open && !r.persistence_loaded && !r.persistence_dirty,
    {
        let mut c = CoreContext::new();
        c.db_override = Some(path);
        c
    }

    /// Marks memory as differing from the database.
    pub fn mark_persistence_dirty(&mut self)
        ensures
            final(self).persistence_dirty,
            final(self).local_uuid == old(self).local_uuid,
            final(self).persistence_loaded == old(self).persistence_loaded,
            final(self).persistence_activated == old(self).persistence_activated,
    {
        self.persistence_dirty = true;
    }

    /// Loading the database is still to be attempted: not open and not yet attempted.
    pub open spec fn load_pending(&self) -> bool {
        !self.persistence_open && !self.persistence_loaded
    }

    /// Whether loading the database should be attempted: not yet open and not yet attempted.
    pub fn needs_persistence_load(&self) -> (r: bool)
        ensures
            r == self.load_pending(),
    {
        !self.persistence_open && !self.persistence_loaded
    }

    /// One step of lazy loading, given whether the database file exists and (when it does)
    /// whether it opened. A missing file counts as loaded (a fresh install creates nothing); a
    /// file that failed to open is retried later. Answers whether the stored state should now
    /// be read into memory.
    pub fn ensure_persistence_loaded(&mut self, path_exists: bool, opened: bool) -> (r: bool)
        ensures
            !old(self).load_pending() ==> !r && final(self).persistence_loaded == old(self).persistence_loaded
                && final(self).persistence_open == old(self).persistence_open,
            old(self).load_pending() && !path_exists ==> !r && final(self).persistence_loaded && !final(self).persistence_open,
            old(self).load_pending() && path_exists && !opened ==> !r && !final(self).persistence_loaded && !final(self).persistence_open,
            old(self).load_pending() && path_exists && opened ==> r && final(self).persistence_loaded && final(self).persistence_open,
            final(self).local_uuid == old(self).local_uuid,
            final(self).persistence_dirty == old(self).persistence_dirty,
            !old(self).load_pending() ==> *final(self) == *old(self),
            *final(self) == (CoreContext {
                persistence_loaded: final(self).persistence_loaded,
                persistence_open: final(self).persistence_open,
                ..*old(self)
            }),
    {
        if !self.needs_persistence_load() {
            return false;
        }
        if !path_exists {
            self.persistence_loaded = true;
            return false;
        }
        if opened {
            self.persistence_loaded = true;
            self.persistence_open = true;
            true
        } else {
            false
        }
    }

    /// Takes the local id the database holds, when it holds a non-empty one and none is set.
    /// Answers whether an id is set afterwards.
    pub fn adopt_stored_uuid(&mut self, stored: Option<String>) -> (r: bool)
        ensures
            old(self).local_uuid@.len() > 0 ==> r && final(self).local_uuid == old(self).local_uuid,
            old(self).local_uuid@.len() == 0 ==> match stored {
                Some(u) => if u@.len() > 0 { r && final(self).local_uuid == u } else { !r && final(self).local_uuid == old(self).local_uuid },
                None => !r && final(self).local_uuid == old(self).local_uuid,
            },
            final(self).persistence_dirty == old(self).persistence_dirty,
    {
        if !self.local_uuid.as_str().is_empty() {
            return true;
        }
        match stored {
            Some(u) => {
                if !u.as_str().is_empty() {
                    self.local_uuid = u;
                    true
                } else {
                    false
                }
            },
            None => false,
        }
    }

    /// Takes a freshly generated local id (saved by the caller); memory now differs from the
    /// database.
    pub fn adopt_new_uuid(&mut self, fresh: String)
        ensures
            final(self).local_uuid == fresh,
            final(self).persistence_dirty,
    {
        self.local_uuid = fresh;
        self.persistence_dirty = true;
    }

    /// Sets what this device announces (the name is stored base64). A battery outside
    /// `[-100, 100]` is refused and nothing changes.
    pub fn set_broadcast_info(&mut self, uuid: &str, name: &str, battery: i32, device_type: &str) -> (r: bool)
        ensures
            r == (-100 <= battery <= 100),
            r ==> (final(self).broadcast_info matches Some(b) && b.uuid@ == uuid@ && b.name_b64@ == base64_text(name@)
                && b.battery == battery && b.device_type@ == device_type@),
            !r ==> final(self).broadcast_info == old(self).broadcast_info,
            final(self).local_uuid == old(self).local_uuid,
    {
        if battery < -100 || battery > 100 {
            return false;
        }
        self.broadcast_info = Some(BroadcastInfo {
            uuid: owned(uuid),
            name_b64: b64_encode(name),
            battery,
            device_type: owned(device_type),
        });
        true
    }

    /// Adopts the id the platform announces when the database gave none; a non-empty id
    /// activates persistence. An empty id changes nothing.
    pub fn adopt_local_uuid(&mut self, uuid: &str)
        ensures
            uuid@.len() == 0 ==> final(self).local_uuid == old(self).local_uuid
                && final(self).persistence_dirty == old(self).persistence_dirty
                && final(self).persistence_activated == old(self).persistence_activated,
            uuid@.len() > 0 ==> final(self).persistence_activated,
            uuid@.len() > 0 && old(self).local_uuid@.len() == 0 ==> final(self).local_uuid@ == uuid@ && final(self).persistence_dirty,
            uuid@.len() > 0 && old(self).local_uuid@.len() > 0 ==> final(self).local_uuid == old(self).local_uuid
                && final(self).persistence_dirty == old(self).persistence_dirty,
    {
        if uuid.is_empty() {
            return;
        }
        if self.local_uuid.as_str().is_empty() {
            self.local_uuid = owned(uuid);
            self.mark_persistence_dirty();
        }
        self.persistence_activated = true;
    }

    /// The local id announced, if any.
    pub fn broadcast_uuid(&self) -> (r: Option<&str>)
        ensures
            match self.broadcast_info {
                Some(b) => r matches Some(u) && u@ == b.uuid@,
                None => r is None,
            },
    {
        match &self.broadcast_info {
            Some(b) => Some(b.uuid.as_str()),
            None => None,
        }
    }

    /// Records the address of `uuid`.
    pub fn record_device_ip(&mut self, uuid: &str, ip: &str)
        ensures
            last_value(final(self).device_ips@, uuid@) matches Some(v) && v@ == ip@,
            forall|o: Seq<char>| o != uuid@ ==> #[trigger] last_value(final(self).device_ips@, o) == last_value(old(self).device_ips@, o),
            final(self).registry == old(self).registry,
    {
        let ghost before = self.device_ips@;
        insert_key(&mut self.device_ips, owned(uuid), owned(ip));
        proof {
            let k: String = self.device_ips@.last().0;
            let v: String = self.device_ips@.last().1;
            crate::vecmap::lemma_insert_key(before, k, v, uuid@);
            assert forall|o: Seq<char>| o != uuid@ implies #[trigger] last_value(self.device_ips@, o) == last_value(before, o) by {
                crate::vecmap::lemma_insert_key(before, k, v, o);
            }
        }
    }

    /// The recorded address of `uuid` (empty when none).
    pub fn device_ip(&self, uuid: &str) -> (r: String)
        ensures
            r@ == match last_value(self.device_ips@, uuid@) {
                Some(v) => v@,
                None => Seq::<char>::empty(),
            },
    {
        let mut found: Option<usize> = None;
        let mut i: usize = 0;
        assert(self.device_ips@.take(0) =~= Seq::<(String, String)>::empty());
        while i < self.device_ips.len()
            invariant
                i <= self.device_ips.len(),
                match found {
                    Some(j) => j < i && last_value(self.device_ips@.take(i as int), uuid@) == Some(self.device_ips@[j as int].1),
                    None => last_value(self.device_ips@.take(i as int), uuid@) is None,
                },
            decreases self.device_ips.len() - i,
        {
            assert(self.device_ips@.take(i + 1).drop_last() =~= self.device_ips@.take(i as int));
            if str_eq(self.device_ips[i].0.as_str(), uuid) {
                found = Some(i);
            }
            i = i + 1;
        }
        assert(self.device_ips@.take(i as int) =~= self.device_ips@);
        match found {
            Some(j) => self.device_ips[j].1.clone(),
            None => String::new(),
        }
    }

    /// The address a pairing can be sent to: the recorded one when usable (not empty and not
    /// `0.0.0.0`), else empty.
    pub fn pairing_target_ip(&self, uuid: &str) -> (r: String)
        ensures
            r@ == match last_value(self.device_ips@, uuid@) {
                Some(v) => if v@.len() > 0 && v@ != "0.0.0.0"@ { v@ } else { Seq::<char>::empty() },
                None => Seq::<char>::empty(),
            },
    {
        let ip = self.device_ip(uuid);
        if !ip.as_str().is_empty() && !str_eq(ip.as_str(), "0.0.0.0") {
            ip
        } else {
            String::new()
        }
    }

    /// A peer discovered by broadcast at time `now` (s) from address `ip`: unless it is this
    /// device, the registry is refreshed with the decoded name and the address recorded.
    /// Answers the decoded name for the discovery report, or `None` for this device itself.
    pub fn consume_discovered_device(
        &mut self,
        uuid: &str,
        name_b64: &str,
        port: u16,
        battery: i32,
        device_type: &str,
        ip: &str,
        now: i64,
    ) -> (r: Option<String>)
        requires
            old(self).registry.wf(),
        ensures
            final(self).registry.wf(),
            (old(self).broadcast_info matches Some(b) && b.uuid@ == uuid@) ==> r is None
                && final(self).registry@ == old(self).registry@ && final(self).device_ips == old(self).device_ips,
            !(old(self).broadcast_info matches Some(b) && b.uuid@ == uuid@) ==> {
                &&& r matches Some(n) && n@ == peer_name_spec(name_b64@)
                &&& uuid@.len() == 0 ==> final(self).registry@ == old(self).registry@
                &&& uuid@.len() > 0 ==> replaced(old(self).registry@, final(self).registry@, uuid@, Some(DeviceView {
                        last_seen: now,
                        ..merge_fields(base_device(old(self).registry@, uuid@, 0), peer_name_spec(name_b64@), ip@, port, battery, device_type@)
                    }))
                &&& last_value(final(self).device_ips@, uuid@) matches Some(v) && v@ == ip@
            },
    {
        let is_self = match &self.broadcast_info {
            Some(b) => str_eq(b.uuid.as_str(), uuid),
            None => false,
        };
        if is_self {
            return None;
        }
        let name = decode_peer_name(name_b64);
        self.registry.upsert_at(uuid, name.as_str(), ip, port, battery, device_type, now);
        self.record_device_ip(uuid, ip);
        Some(name)
    }

    /// `uuid` is renamed `name` at time `now` (s): its stored row takes the name and the time
    /// (a new row, created now and otherwise empty, when there is none), and the registry takes
    /// the name without refreshing `last_seen`. An empty id or name changes nothing and answers
    /// `false`.
    pub fn rename_device(&mut self, uuid: &str, name: &str, now: i64) -> (r: bool)
        requires
            old(self).registry.wf(),
        ensures
            final(self).registry.wf(),
            r == (uuid@.len() > 0 && name@.len() > 0),
            !r ==> *final(self) == *old(self),
            r ==> {
                &&& last_value(final(self).persisted_devices@, uuid@) matches Some(row)
                    && renamed_row(row, last_value(old(self).persisted_devices@, uuid@), uuid@, name@, now)
                &&& forall|o: Seq<char>| o != uuid@ ==> #[trigger] last_value(final(self).persisted_devices@, o)
                    == last_value(old(self).persisted_devices@, o)
                &&& replaced(old(self).registry@, final(self).registry@, uuid@, Some(
                    merge_fields(base_device(old(self).registry@, uuid@, 0), name@, Seq::<char>::empty(), 0, BATTERY_UNKNOWN, Seq::<char>::empty())))
                &&& *final(self) == (CoreContext {
                        persisted_devices: final(self).persisted_devices,
                        registry: final(self).registry,
                        ..*old(self)
                    })
            },
    {
        if uuid.is_empty() || name.is_empty() {
            return false;
        }
        let row = match self.persisted(uuid) {
            Some(i) => {
                let mut row = self.persisted_devices[i].1.duplicate();
                row.display_name = owned(name);
                row.updated_at = now;
                row
            },
            None => PersistedDevice {
                uuid: owned(uuid),
                public_key: String::new(),
                shared_secret: String::new(),
                is_accepted: false,
                display_name: owned(name),
                last_ip: String::new(),
                last_port: 0,
                created_at: now,
                updated_at: now,
            },
        };
        let ghost before = self.persisted_devices@;
        let key = owned(uuid);
        proof {
            assert forall|o: Seq<char>| o != uuid@ implies #[trigger] last_value(without_key(before, key@).push((key, row)), o)
                == last_value(before, o) by {
                crate::vecmap::lemma_insert_key(before, key, row, o);
            }
            crate::vecmap::lemma_insert_key(before, key, row, uuid@);
        }
        insert_key(&mut self.persisted_devices, key, row);
        proof {
            reveal_strlit("");
            assert(""@ =~= Seq::<char>::empty());
        }
        self.registry.upsert_no_seen(uuid, name, "", 0, BATTERY_UNKNOWN, "");
        true
    }

    /// The stored row of `uuid`, if any.
    fn persisted(&self, uuid: &str) -> (r: Option<usize>)
        ensures
            match r {
                Some(i) => i < self.persisted_devices@.len() && last_value(self.persisted_devices@, uuid@) == Some(self.persisted_devices@[i as int].1),
                None => last_value(self.persisted_devices@, uuid@) is None,
            },
    {
        let mut found: Option<usize> = None;
        let mut i: usize = 0;
        assert(self.persisted_devices@.take(0) =~= Seq::<(String, PersistedDevice)>::empty());
        while i < self.persisted_devices.len()
            invariant
                i <= self.persisted_devices.len(),
                match found {
                    Some(j) => j < i && last_value(self.persisted_devices@.take(i as int), uuid@) == Some(self.persisted_devices@[j as int].1),
                    None => last_value(self.persisted_devices@.take(i as int), uuid@) is None,
                },
            decreases self.persisted_devices.len() - i,
        {
            assert(self.persisted_devices@.take(i + 1).drop_last() =~= self.persisted_devices@.take(i as int));
            if str_eq(self.persisted_devices[i].0.as_str(), uuid) {
                found = Some(i);
            }
            i = i + 1;
        }
        assert(self.persisted_devices@.take(i as int) =~= self.persisted_devices@);
        found
    }

    /// `r` is the row to store for `uuid` at time `now` (s).
    pub open spec fn row_of(&self, uuid: Seq<char>, now: i64, r: PersistedDevice) -> bool {
        &&& r.uuid@ == uuid
        &&& ({
                let key = last_value(self.crypto.device_keys@, uuid);
                let info = last_value(self.persisted_devices@, uuid);
                let reg = find_device(self.registry@, uuid);
                &&& r.public_key@ == match key { Some(k) => k.remote_pub_key@, None => Seq::<char>::empty() }
                &&& r.shared_secret@ == match key { Some(k) => k.aes_key_b64@, None => Seq::<char>::empty() }
                &&& r.is_accepted == (key is Some || (info matches Some(i) && i.is_accepted))
                &&& r.created_at == match info { Some(i) => i.created_at, None => now }
                &&& r.updated_at == now
                &&& r.display_name@ == (if info matches Some(i) && i.display_name@.len() > 0 {
                        info->0.display_name@
                    } else if reg matches Some(g) && g.name.len() > 0 {
                        reg->0.name
                    } else {
                        Seq::<char>::empty()
                    })
                &&& r.last_ip@ == (if reg matches Some(g) && g.ip.len() > 0 && g.ip != "0.0.0.0"@ {
                        reg->0.ip
                    } else if info matches Some(i) && i.last_ip@.len() > 0 {
                        info->0.last_ip@
                    } else {
                        Seq::<char>::empty()
                    })
                &&& r.last_port == (if reg matches Some(g) && g.port > 0 {
                        reg->0.port
                    } else if info is Some {
                        info->0.last_port
                    } else {
                        DEFAULT_TCP_PORT
                    })
        })
    }

    /// The row to store for `uuid` at time `now` (s): keys from the key store; name and
    /// address from the stored row and the registry (the stored name first, the registry's
    /// usable address and non-zero port first); accepted when a key is held or the row says so.
    pub fn build_device_row(&self, uuid: &str, now: i64) -> (r: PersistedDevice)
        requires
            self.registry.wf(),
        ensures
            self.row_of(uuid@, now, r),
    {
        let key = self.crypto.remote_pub_key(uuid);
        let has_key = self.crypto.has_device_key(uuid);
        let secret = self.crypto_secret(uuid);
        let info = self.persisted(uuid);
        let reg = self.registry.get(uuid);
        let created = match info {
            Some(i) => self.persisted_devices[i].1.created_at,
            None => now,
        };
        let display_name = match info {
            Some(i) if !self.persisted_devices[i].1.display_name.as_str().is_empty() => self.persisted_devices[i].1.display_name.clone(),
            _ => match &reg {
                Some(g) if !g.name.as_str().is_empty() => g.name.clone(),
                _ => String::new(),
            },
        };
        let last_ip = match &reg {
            Some(g) if !g.ip.as_str().is_empty() && !str_eq(g.ip.as_str(), "0.0.0.0") => g.ip.clone(),
            _ => match info {
                Some(i) if !self.persisted_devices[i].1.last_ip.as_str().is_empty() => self.persisted_devices[i].1.last_ip.clone(),
                _ => String::new(),
            },
        };
        let last_port = match &reg {
            Some(g) if g.port > 0 => g.port,
            _ => match info {
                Some(i) => self.persisted_devices[i].1.last_port,
                None => DEFAULT_TCP_PORT,
            },
        };
        let accepted = has_key || match info {
            Some(i) => self.persisted_devices[i].1.is_accepted,
            None => false,
        };
        PersistedDevice {
            uuid: owned(uuid),
            public_key: match key {
                Some(k) => k,
                None => String::new(),
            },
            shared_secret: secret,
            is_accepted: accepted,
            display_name,
            last_ip,
            last_port,
            created_at: created,
            updated_at: now,
        }
    }

    /// The base64 session key stored for `uuid` (empty when none).
    fn crypto_secret(&self, uuid: &str) -> (r: String)
        ensures
            r@ == match last_value(self.crypto.device_keys@, uuid@) {
                Some(k) => k.aes_key_b64@,
                None => Seq::<char>::empty(),
            },
    {
        let mut found: Option<usize> = None;
        let mut i: usize = 0;
        assert(self.crypto.device_keys@.take(0) =~= Seq::<(String, DeviceKeyEntry)>::empty());
        while i < self.crypto.device_keys.len()
            invariant
                i <= self.crypto.device_keys.len(),
                match found {
                    Some(j) => j < i && last_value(self.crypto.device_keys@.take(i as int), uuid@) == Some(self.crypto.device_keys@[j as int].1),
                    None => last_value(self.crypto.device_keys@.take(i as int), uuid@) is None,
                },
            decreases self.crypto.device_keys.len() - i,
        {
            assert(self.crypto.device_keys@.take(i + 1).drop_last() =~= self.crypto.device_keys@.take(i as int));
            if str_eq(self.crypto.device_keys[i].0.as_str(), uuid) {
                found = Some(i);
            }
            i = i + 1;
        }
        assert(self.crypto.device_keys@.take(i as int) =~= self.crypto.device_keys@);
        match found {
            Some(j) => self.crypto.device_keys[j].1.aes_key_b64.clone(),
            None => String::new(),
        }
    }
}

/// Milliseconds between two discovery broadcasts.
pub const BROADCAST_INTERVAL_MS: u64 = 2000;

/// The discovery request this device broadcasts for `info`.
pub open spec fn broadcast_text(b: BroadcastInfo) -> Seq<char> {
    discovery_text(b.uuid@, b.name_b64@, DEFAULT_TCP_PORT, b.battery, b.device_type@)
}

/// What a discovery datagram announces: its UTF-8 text, trimmed, decoded as a discovery
/// message with a non-empty id.
pub open spec fn datagram_spec(bytes: Seq<u8>) -> Option<(Seq<char>, Seq<char>, u16, i32, Seq<char>)> {
    if !vstd::utf8::valid_utf8(bytes) {
        None
    } else {
        let line = trim_seq(vstd::utf8::decode_utf8(bytes));
        if line.len() == 0 {
            None
        } else {
            match discovery_spec(line) {
                Some(d) => if d.0.len() > 0 { Some(d) } else { None },
                None => None,
            }
        }
    }
}

/// Reads a discovery datagram received from a peer.
pub fn read_discovery_datagram(bytes: &[u8]) -> (r: Option<(String, String, u16, i32, String)>)
    ensures
        match (r, datagram_spec(bytes@)) {
            (Some((u, n, p, b, d)), Some((su, sn, sp, sb, sd))) => u@ == su && n@ == sn && p == sp && b == sb && d@ == sd,
            (None, None) => true,
            _ => false,
        },
{
    let text = match utf8_text(bytes) {
        Some(t) => t,
        None => return None,
    };
    let chars = trim(text.as_str());
    if chars.len() == 0 {
        return None;
    }
    let line = string_of(chars.as_slice());
    match decode_discovery_request(line.as_str()) {
        Some(d) => {
            if d.0.as_str().is_empty() {
                None
            } else {
                Some(d)
            }
        },
        None => None,
    }
}

impl CoreContext {
    /// One broadcast round at `now_ms`, the last broadcast having been at `last_ms`: when the
    /// interval has passed, the discovery request to send (none without an identity) and the
    /// new time of the last broadcast; else nothing and `last_ms`.
    pub fn broadcast_round(&self, last_ms: u64, now_ms: u64) -> (r: (Option<String>, u64))
        ensures
            now_ms >= last_ms && now_ms - last_ms >= BROADCAST_INTERVAL_MS ==> r.1 == now_ms && match self.broadcast_info {
                Some(b) => r.0 matches Some(m) && m@ == broadcast_text(b),
                None => r.0 is None,
            },
            !(now_ms >= last_ms && now_ms - last_ms >= BROADCAST_INTERVAL_MS) ==> r.0 is None && r.1 == last_ms,
    {
        if !(now_ms >= last_ms && now_ms - last_ms >= BROADCAST_INTERVAL_MS) {
            return (None, last_ms);
        }
        let msg = match &self.broadcast_info {
            Some(b) => Some(encode_discovery_request(b.uuid.as_str(), b.name_b64.as_str(), DEFAULT_TCP_PORT, b.battery, b.device_type.as_str())),
            None => None,
        };
        (msg, now_ms)
    }

    /// Whether the broadcast worker runs.
    pub fn broadcast_running(&self) -> (r: bool)
        ensures
            r == (self.broadcast_handle matches Some(h) && h.running),
    {
        match &self.broadcast_handle {
            Some(h) => h.running,
            None => false,
        }
    }

    /// Stops the broadcast worker. What this device announces is kept: the heartbeat
    /// scheduler, reconnection and discovery still need its identity.
    pub fn stop_broadcast(&mut self)
        ensures
            final(self).broadcast_handle is None,
            final(self).broadcast_info == old(self).broadcast_info,
            final(self).local_uuid == old(self).local_uuid,
    {
        self.broadcast_handle = None;
    }

    /// Records that the broadcast worker was started; answers `false` (nothing to start) when
    /// one is already there.
    pub fn start_broadcast(&mut self) -> (r: bool)
        ensures
            r == old(self).broadcast_handle is None,
            final(self).broadcast_handle matches Some(h) && (r ==> h.running),
            !r ==> final(self).broadcast_handle == old(self).broadcast_handle,
            final(self).broadcast_info == old(self).broadcast_info,
    {
        if self.broadcast_handle.is_some() {
            return false;
        }
        self.broadcast_handle = Some(BroadcastHandle { running: true });
        true
    }
}

/// Predicate: a stored row's device is neither in the key store nor among the stored devices.
pub open spec fn is_tombstone(keys: Seq<(String, DeviceKeyEntry)>, rows: Seq<(String, PersistedDevice)>) -> spec_fn(Seq<char>) -> bool {
    |u: Seq<char>| !has_key(keys, u) && !has_key(rows, u)
}

impl CoreContext {
    /// A flush is due: memory differs from the database and the platform confirmed the
    /// identity.
    pub fn flush_due(&self) -> (r: bool)
        ensures
            r == (self.persistence_dirty && self.persistence_activated),
    {
        self.persistence_dirty && self.persistence_activated
    }

    /// The devices whose rows a flush writes: those with keys and those with stored rows,
    /// sorted and each once.
    pub fn flush_uuids(&self) -> (r: Vec<String>)
        ensures
            strictly_sorted(views(r@)),
            views(r@).to_set() == key_set(self.crypto.device_keys@) + key_set(self.persisted_devices@),
    {
        let mut v: Vec<String> = Vec::new();
        assert(views(v@).to_set() =~= Set::<Seq<char>>::empty()) by {
            assert(views(v@) =~= Seq::<Seq<char>>::empty());
        }
        insert_keys(&mut v, &self.crypto.device_keys);
        insert_keys(&mut v, &self.persisted_devices);
        assert(Set::<Seq<char>>::empty() + key_set(self.crypto.device_keys@) + key_set(self.persisted_devices@)
            =~= key_set(self.crypto.device_keys@) + key_set(self.persisted_devices@));
        v
    }

    /// The rows a flush writes at time `now` (s), each with whether the device has a key.
    pub fn flush_rows(&self, uuids: &Vec<String>, now: i64) -> (r: Vec<(PersistedDevice, bool)>)
        requires
            self.registry.wf(),
        ensures
            r@.len() == uuids@.len(),
            forall|i: int| 0 <= i < uuids@.len() ==> self.row_of(uuids@[i]@, now, (#[trigger] r@[i]).0)
                && r@[i].1 == has_key(self.crypto.device_keys@, uuids@[i]@),
    {
        let mut out: Vec<(PersistedDevice, bool)> = Vec::new();
        let mut i: usize = 0;
        while i < uuids.len()
            invariant
                i <= uuids.len(),
                self.registry.wf(),
                out@.len() == i,
                forall|j: int| 0 <= j < i ==> self.row_of(uuids@[j]@, now, (#[trigger] out@[j]).0)
                    && out@[j].1 == has_key(self.crypto.device_keys@, uuids@[j]@),
            decreases uuids.len() - i,
        {
            let row = self.build_device_row(uuids[i].as_str(), now);
            let k = contains_key(&self.crypto.device_keys, uuids[i].as_str());
            out.push((row, k));
            i = i + 1;
        }
        out
    }

    /// The stored rows to delete: those whose device is neither in the key store nor among
    /// the stored devices (so that a later load cannot bring its keys back).
    pub fn tombstones(&self, stored: &Vec<String>) -> (r: Vec<String>)
        ensures
            views(r@) == views(stored@).filter(is_tombstone(self.crypto.device_keys@, self.persisted_devices@)),
    {
        let ghost sv = views(stored@);
        let ghost pred = is_tombstone(self.crypto.device_keys@, self.persisted_devices@);
        let mut out: Vec<String> = Vec::new();
        let mut i: usize = 0;
        assert(sv.take(0).filter(pred) =~= Seq::<Seq<char>>::empty()) by {
            reveal(Seq::filter);
        }
        assert(views(out@) =~= Seq::<Seq<char>>::empty());
        while i < stored.len()
            invariant
                i <= stored.len(),
                sv == views(stored@),
                pred == is_tombstone(self.crypto.device_keys@, self.persisted_devices@),
                views(out@) == sv.take(i as int).filter(pred),
            decreases stored.len() - i,
        {
            proof {
                assert(sv.take(i + 1) =~= sv.take(i as int).push(sv[i as int]));
                sv.take(i as int).lemma_filter_push(sv[i as int], pred);
            }
            let u = stored[i].as_str();
            if !contains_key(&self.crypto.device_keys, u) && !contains_key(&self.persisted_devices, u) {
                let ghost before = out@;
                out.push(owned(u));
                assert(views(out@) =~= views(before).push(sv[i as int]));
            }
            i = i + 1;
        }
        assert(sv.take(stored.len() as int) =~= sv);
        out
    }

    /// The flush was written: memory and database agree and no deletion is pending.
    pub fn flush_succeeded(&mut self)
        ensures
            !final(self).persistence_dirty,
            final(self).pending_device_deletions@.len() == 0,
            final(self).local_uuid == old(self).local_uuid,
            final(self).persistence_activated == old(self).persistence_activated,
    {
        self.persistence_dirty = false;
        self.pending_device_deletions = Vec::new();
    }

    /// Keeps the stored-row cache in step with a row just written: the cached row of its
    /// device (if any) takes its name, address, port, keys, acceptance and update time.
    pub fn sync_persisted_row(&mut self, dev: &PersistedDevice)
        ensures
            final(self).persisted_devices@.len() == old(self).persisted_devices@.len(),
            forall|o: Seq<char>| o != dev.uuid@ ==> #[trigger] last_value(final(self).persisted_devices@, o)
                == last_value(old(self).persisted_devices@, o),
            match last_value(old(self).persisted_devices@, dev.uuid@) {
                Some(old_row) => last_value(final(self).persisted_devices@, dev.uuid@) matches Some(n)
                    && n.display_name@ == dev.display_name@ && n.last_ip@ == dev.last_ip@ && n.last_port == dev.last_port
                    && n.public_key@ == dev.public_key@ && n.shared_secret@ == dev.shared_secret@
                    && n.is_accepted == dev.is_accepted && n.updated_at == dev.updated_at
                    && n.created_at == old_row.created_at && n.uuid@ == old_row.uuid@,
                None => final(self).persisted_devices@ == old(self).persisted_devices@,
            },
    {
        match crate::vecmap::find_index(&self.persisted_devices, dev.uuid.as_str()) {
            Some(i) => {
                let old_row = &self.persisted_devices[i].1;
                let n = PersistedDevice {
                    uuid: owned(old_row.uuid.as_str()),
                    public_key: owned(dev.public_key.as_str()),
                    shared_secret: owned(dev.shared_secret.as_str()),
                    is_accepted: dev.is_accepted,
                    display_name: owned(dev.display_name.as_str()),
                    last_ip: owned(dev.last_ip.as_str()),
                    last_port: dev.last_port,
                    created_at: old_row.created_at,
                    updated_at: dev.updated_at,
                };
                let k = owned(self.persisted_devices[i].0.as_str());
                let ghost before = self.persisted_devices@;
                let ghost kv = dev.uuid@;
                self.persisted_devices.set(i, (k, n));
                proof {
                    crate::vecmap::lemma_update_found(before, i as int, k, n, kv);
                    assert forall|o: Seq<char>| o != kv implies #[trigger] last_value(self.persisted_devices@, o) == last_value(before, o) by {
                        crate::vecmap::lemma_update_found(before, i as int, k, n, o);
                    }
                }
            },
            None => {},
        }
    }
}

// ===================== the device list =====================

/// An offline placeholder for a device that is known or paired but never reported.
pub open spec fn placeholder(uuid: Seq<char>, ip: Seq<char>, port: u16) -> DeviceView {
    DeviceView {
        uuid,
        name: Seq::empty(),
        ip,
        port,
        battery: BATTERY_UNKNOWN,
        device_type: Seq::empty(),
        last_seen: 0,
        connected: false,
    }
}

/// Whether a device of id `uuid` is in the list.
pub open spec fn listed(devs: Seq<DeviceView>, uuid: Seq<char>) -> bool {
    exists|i: int| 0 <= i < devs.len() && (#[trigger] devs[i]).uuid == uuid
}

/// The list with a placeholder (default port) for each known device not in it yet.
pub open spec fn with_known(devs: Seq<DeviceView>, known: Seq<(String, String)>) -> Seq<DeviceView>
    decreases known.len(),
{
    if known.len() == 0 {
        devs
    } else {
        let acc = with_known(devs, known.drop_last());
        if listed(acc, known.last().0@) {
            acc
        } else {
            acc.push(placeholder(known.last().0@, known.last().1@, DEFAULT_TCP_PORT))
        }
    }
}

/// The list with a placeholder (no address, port 0) for each paired device not in it yet.
pub open spec fn with_paired(devs: Seq<DeviceView>, keys: Seq<(String, DeviceKeyEntry)>) -> Seq<DeviceView>
    decreases keys.len(),
{
    if keys.len() == 0 {
        devs
    } else {
        let acc = with_paired(devs, keys.drop_last());
        if listed(acc, keys.last().0@) {
            acc
        } else {
            acc.push(placeholder(keys.last().0@, Seq::empty(), 0))
        }
    }
}

/// An `i64` result clamped into the `i64` range.
pub open spec fn clamp_i64(v: int) -> int {
    if v > i64::MAX {
        i64::MAX as int
    } else if v < i64::MIN {
        i64::MIN as int
    } else {
        v
    }
}

/// Online: the threshold (ms) for its kind is positive and its silence (s, saturating, in
/// ms) is within it.
pub open spec fn online_spec(last_seen: i64, paired: bool, now: i64, authed_ms: i64, unauthed_ms: i64) -> bool {
    let threshold = if paired { authed_ms } else { unauthed_ms };
    threshold > 0 && clamp_i64(clamp_i64(now - last_seen) * 1000) <= threshold
}

/// The JSON text of `true` / `false`.
pub open spec fn bool_text(b: bool) -> Seq<char> {
    if b {
        "true"@
    } else {
        "false"@
    }
}

/// One entry of the device list.
pub open spec fn device_json(d: DeviceView, paired: bool, online: bool) -> LeafView {
    LeafView::Raw(object_text(seq![
        ("battery"@, LeafView::Raw(dec_int(d.battery as int))),
        ("connected"@, LeafView::Raw(bool_text(d.connected))),
        ("deviceType"@, LeafView::Str(d.device_type)),
        ("ip"@, LeafView::Str(d.ip)),
        ("lastSeen"@, LeafView::Raw(dec_int(d.last_seen as int))),
        ("name"@, LeafView::Str(d.name)),
        ("online"@, LeafView::Raw(bool_text(online))),
        ("paired"@, LeafView::Raw(bool_text(paired))),
        ("port"@, LeafView::Raw(dec_int(d.port as int))),
        ("uuid"@, LeafView::Str(d.uuid)),
    ]))
}

fn bool_leaf(b: bool) -> (r: JsonLeaf)
    ensures
        r@ == LeafView::Raw(bool_text(b)),
{
    if b {
        JsonLeaf::Raw(owned("true"))
    } else {
        JsonLeaf::Raw(owned("false"))
    }
}

fn int_leaf(v: i64) -> (r: JsonLeaf)
    ensures
        r@ == LeafView::Raw(dec_int(v as int)),
{
    let mut s = String::new();
    push_int(&mut s, v);
    assert(s@ =~= dec_int(v as int));
    JsonLeaf::Raw(s)
}

fn is_listed(devs: &Vec<RegisteredDevice>, uuid: &str) -> (r: bool)
    ensures
        r == listed(devs@.map_values(|d: RegisteredDevice| d@), uuid@),
{
    let ghost dv = devs@.map_values(|d: RegisteredDevice| d@);
    let mut i: usize = 0;
    while i < devs.len()
        invariant
            i <= devs.len(),
            dv == devs@.map_values(|d: RegisteredDevice| d@),
            forall|j: int| 0 <= j < i ==> (#[trigger] dv[j]).uuid != uuid@,
        decreases devs.len() - i,
    {
        if str_eq(devs[i].uuid.as_str(), uuid) {
            assert(dv[i as int].uuid == uuid@);
            return true;
        }
        i = i + 1;
    }
    false
}

fn placeholder_device(uuid: &str, ip: &str, port: u16) -> (r: RegisteredDevice)
    ensures
        r@ == placeholder(uuid@, ip@, port),
{
    RegisteredDevice {
        uuid: owned(uuid),
        name: String::new(),
        ip: owned(ip),
        port,
        battery: BATTERY_UNKNOWN,
        device_type: String::new(),
        last_seen: 0,
        connected: false,
    }
}

fn clamp_to_i64(v: i128) -> (r: i64)
    ensures
        r as int == clamp_i64(v as int),
{
    if v > i64::MAX as i128 {
        i64::MAX
    } else if v < i64::MIN as i128 {
        i64::MIN
    } else {
        v as i64
    }
}

impl CoreContext {
    /// The devices to list: the registry, then an offline placeholder for each known device
    /// and each paired device not listed yet.
    pub fn listed_devices(&self) -> (r: Vec<RegisteredDevice>)
        requires
            self.registry.wf(),
        ensures
            r@.map_values(|d: RegisteredDevice| d@) == with_paired(
                with_known(self.registry@, self.discovery.known()),
                self.crypto.device_keys@,
            ),
    {
        let mut devs = self.registry.snapshot();
        let known = self.discovery.get_known_devices();
        let ghost base = self.registry@;
        let mut i: usize = 0;
        assert(known@.take(0) =~= Seq::<(String, String)>::empty());
        while i < known.len()
            invariant
                i <= known.len(),
                known@ == self.discovery.known(),
                devs@.map_values(|d: RegisteredDevice| d@) == with_known(base, known@.take(i as int)),
            decreases known.len() - i,
        {
            proof {
                assert(known@.take(i + 1).drop_last() =~= known@.take(i as int));
                assert(known@.take(i + 1).last() == known@[i as int]);
            }
            if !is_listed(&devs, known[i].0.as_str()) {
                let ghost before = devs@;
                let d = placeholder_device(known[i].0.as_str(), known[i].1.as_str(), DEFAULT_TCP_PORT);
                devs.push(d);
                assert(devs@.map_values(|d: RegisteredDevice| d@) =~= before.map_values(|d: RegisteredDevice| d@).push(d@));
            }
            i = i + 1;
        }
        assert(known@.take(known.len() as int) =~= known@);
        let ghost mid = with_known(base, known@);
        let keys = &self.crypto.device_keys;
        let mut j: usize = 0;
        assert(keys@.take(0) =~= Seq::<(String, DeviceKeyEntry)>::empty());
        while j < keys.len()
            invariant
                j <= keys.len(),
                keys == &self.crypto.device_keys,
                devs@.map_values(|d: RegisteredDevice| d@) == with_paired(mid, keys@.take(j as int)),
            decreases keys.len() - j,
        {
            proof {
                assert(keys@.take(j + 1).drop_last() =~= keys@.take(j as int));
                assert(keys@.take(j + 1).last() == keys@[j as int]);
            }
            if !is_listed(&devs, keys[j].0.as_str()) {
                let ghost before = devs@;
                let d = RegisteredDevice {
                    uuid: owned(keys[j].0.as_str()),
                    name: String::new(),
                    ip: String::new(),
                    port: 0,
                    battery: BATTERY_UNKNOWN,
                    device_type: String::new(),
                    last_seen: 0,
                    connected: false,
                };
                assert(d@ == placeholder(keys@[j as int].0@, Seq::empty(), 0));
                devs.push(d);
                assert(devs@.map_values(|d: RegisteredDevice| d@) =~= before.map_values(|d: RegisteredDevice| d@).push(d@));
            }
            j = j + 1;
        }
        assert(keys@.take(keys.len() as int) =~= keys@);
        devs
    }

    /// The device list as JSON at time `now` (s): each listed device with whether it is
    /// paired (has a key) and online (see `online_spec`).
    pub fn device_list_json(&self, now: i64, authed_timeout_ms: i64, unauthed_timeout_ms: i64) -> (r: String)
        requires
            self.registry.wf(),
        ensures
            ({
                let devs = with_paired(with_known(self.registry@, self.discovery.known()), self.crypto.device_keys@);
                r@ == array_text(devs.map_values(|d: DeviceView| device_json(
                    d,
                    has_key(self.crypto.device_keys@, d.uuid),
                    online_spec(d.last_seen, has_key(self.crypto.device_keys@, d.uuid), now, authed_timeout_ms, unauthed_timeout_ms),
                )))
            }),
    {
        let devs = self.listed_devices();
        let ghost dv = devs@.map_values(|d: RegisteredDevice| d@);
        let ghost f = |d: DeviceView| device_json(
            d,
            has_key(self.crypto.device_keys@, d.uuid),
            online_spec(d.last_seen, has_key(self.crypto.device_keys@, d.uuid), now, authed_timeout_ms, unauthed_timeout_ms),
        );
        let mut items: Vec<JsonLeaf> = Vec::new();
        let mut i: usize = 0;
        while i < devs.len()
            invariant
                i <= devs.len(),
                dv == devs@.map_values(|d: RegisteredDevice| d@),
                f == (|d: DeviceView| device_json(
                    d,
                    has_key(self.crypto.device_keys@, d.uuid),
                    online_spec(d.last_seen, has_key(self.crypto.device_keys@, d.uuid), now, authed_timeout_ms, unauthed_timeout_ms),
                )),
                items_view(items@) == dv.take(i as int).map_values(f),
            decreases devs.len() - i,
        {
            let d = &devs[i];
            let paired = contains_key(&self.crypto.device_keys, d.uuid.as_str());
            let threshold = if paired { authed_timeout_ms } else { unauthed_timeout_ms };
            let silence = clamp_to_i64(now as i128 - d.last_seen as i128);
            let silence_ms = clamp_to_i64(silence as i128 * 1000);
            let online = threshold > 0 && silence_ms <= threshold;
            let mut m: Vec<(String, JsonLeaf)> = Vec::new();
            m.push((owned("battery"), int_leaf(d.battery as i64)));
            m.push((owned("connected"), bool_leaf(d.connected)));
            m.push((owned("deviceType"), JsonLeaf::Str(owned(d.device_type.as_str()))));
            m.push((owned("ip"), JsonLeaf::Str(owned(d.ip.as_str()))));
            m.push((owned("lastSeen"), int_leaf(d.last_seen)));
            m.push((owned("name"), JsonLeaf::Str(owned(d.name.as_str()))));
            m.push((owned("online"), bool_leaf(online)));
            m.push((owned("paired"), bool_leaf(paired)));
            m.push((owned("port"), int_leaf(d.port as i64)));
            m.push((owned("uuid"), JsonLeaf::Str(owned(d.uuid.as_str()))));
            let ghost dd = dv[i as int];
            assert(dd == d@);
            assert(online == online_spec(dd.last_seen, paired, now, authed_timeout_ms, unauthed_timeout_ms));
            assert(members_view(m@) =~= seq![
                ("battery"@, LeafView::Raw(dec_int(dd.battery as int))),
                ("connected"@, LeafView::Raw(bool_text(dd.connected))),
                ("deviceType"@, LeafView::Str(dd.device_type)),
                ("ip"@, LeafView::Str(dd.ip)),
                ("lastSeen"@, LeafView::Raw(dec_int(dd.last_seen as int))),
                ("name"@, LeafView::Str(dd.name)),
                ("online"@, LeafView::Raw(bool_text(online))),
                ("paired"@, LeafView::Raw(bool_text(paired))),
                ("port"@, LeafView::Raw(dec_int(dd.port as int))),
                ("uuid"@, LeafView::Str(dd.uuid)),
            ]);
            let ghost before = items@;
            items.push(JsonLeaf::Raw(write_object(&m)));
            proof {
                assert(dv.take(i + 1) =~= dv.take(i as int).push(dd));
                assert(dv.take(i + 1).map_values(f) =~= dv.take(i as int).map_values(f).push(f(dd)));
                assert(items_view(items@) =~= items_view(before).push(f(dd)));
            }
            i = i + 1;
        }
        assert(dv.take(devs.len() as int) =~= dv);
        write_array(&items)
    }
}

impl CoreContext {
    /// Forgets a paired device: its keys, registry entry, known address and stored-row cache
    /// go, its row is deleted at the next flush, and memory now differs from the database.
    pub fn forget_device(&mut self, uuid: &str)
        requires
            old(self).registry.wf(),
        ensures
            final(self).registry.wf(),
            replaced(old(self).registry@, final(self).registry@, uuid@, None),
            last_value(final(self).crypto.device_keys@, uuid@) is None,
            forall|o: Seq<char>| o != uuid@ ==> #[trigger] last_value(final(self).crypto.device_keys@, o)
                == last_value(old(self).crypto.device_keys@, o),
            final(self).crypto.local_key == old(self).crypto.local_key,
            final(self).discovery.known() == without_key(old(self).discovery.known(), uuid@),
            final(self).persisted_devices@ == without_key(old(self).persisted_devices@, uuid@),
            final(self).pending_device_deletions@.len() == old(self).pending_device_deletions@.len() + 1,
            final(self).pending_device_deletions@.last()@ == uuid@,
            final(self).pending_device_deletions@.drop_last() == old(self).pending_device_deletions@,
            final(self).persistence_dirty,
            final(self).local_uuid == old(self).local_uuid,
    {
        self.crypto.remove_device_key(uuid);
        self.registry.remove(uuid);
        self.discovery.remove_known_device(uuid);
        crate::vecmap::remove_key(&mut self.persisted_devices, uuid);
        let ghost before = self.pending_device_deletions@;
        self.pending_device_deletions.push(owned(uuid));
        assert(self.pending_device_deletions@.drop_last() =~= before);
        self.persistence_dirty = true;
    }

    /// Keeps a pairing code valid for `ttl_secs` seconds from `now_ms` (five minutes when
    /// `ttl_secs` is 0).
    pub fn set_pairing_code(&mut self, code: String, now_ms: u64, ttl_secs: u32)
        ensures
            final(self).pairing_code == Some(code),
            final(self).pairing_code_expiry_ms == Some(pairing_expiry(now_ms, ttl_secs)),
            final(self).local_uuid == old(self).local_uuid,
    {
        let ttl: u64 = if ttl_secs == 0 { 300 } else { ttl_secs as u64 };
        let span: u64 = ttl * 1000;
        let expiry: u64 = if now_ms > u64::MAX - span { u64::MAX } else { now_ms + span };
        self.pairing_code = Some(code);
        self.pairing_code_expiry_ms = Some(expiry);
    }

    /// Drops the pairing code.
    pub fn clear_pairing_code(&mut self)
        ensures
            final(self).pairing_code is None,
            final(self).pairing_code_expiry_ms is None,
            final(self).local_uuid == old(self).local_uuid,
    {
        self.pairing_code = None;
        self.pairing_code_expiry_ms = None;
    }
}

/// When a pairing code made at `now_ms` with a lifetime of `ttl_secs` seconds (0: 300)
/// expires, saturating at the largest time.
pub open spec fn pairing_expiry(now_ms: u64, ttl_secs: u32) -> u64 {
    let ttl: int = if ttl_secs == 0 { 300 } else { ttl_secs as int };
    if now_ms + ttl * 1000 > u64::MAX { u64::MAX } else { (now_ms + ttl * 1000) as u64 }
}

impl Default for CoreContext {
    fn default() -> (r: CoreContext)
        ensures
            r.registry.wf(),
            r.local_uuid@.len() == 0,
    {
        CoreContext::new()
    }
}

} // verus!
