//! What the core persists per device, and how stored rows and key-store data are merged
//! back into memory.
use vstd::prelude::*;
use vstd::string::*;
use crate::crypto::b64::{base64_decoded, decode_key};
use crate::crypto::ecdh::{p256_pem_secret, p256_secret_pem, p256_valid_scalar, secret_from_pem, secret_to_pem};
use crate::crypto::keys::{CryptoState, DeviceKeyEntry, KeyStoreData, session_key_of};
use crate::text::owned;
use crate::vecmap::last_value;

verus! {

/// A stored device row.
pub struct PersistedDevice {
    pub uuid: String,
    pub public_key: String,
    pub shared_secret: String,
    pub is_accepted: bool,
    pub display_name: String,
    pub last_ip: String,
    pub last_port: u16,
    pub created_at: i64,
    pub updated_at: i64,
}

/// A stored port, clamped into `0..=65535`.
pub open spec fn clamp_port(p: i64) -> u16 {
    if p < 0 {
        0
    } else if p > 65535 {
        65535
    } else {
        p as u16
    }
}

impl PersistedDevice {
    /// A row as read from the database; the port is clamped into `0..=65535`.
    pub fn from_row(
        uuid: String,
        public_key: String,
        shared_secret: String,
        is_accepted: bool,
        display_name: String,
        last_ip: String,
        last_port: i64,
        created_at: i64,
        updated_at: i64,
    ) -> (r: PersistedDevice)
        ensures
            r.uuid == uuid,
            r.public_key == public_key,
            r.shared_secret == shared_secret,
            r.is_accepted == is_accepted,
            r.display_name == display_name,
            r.last_ip == last_ip,
            r.last_port == clamp_port(last_port),
            r.created_at == created_at,
            r.updated_at == updated_at,
    {
        let port: u16 = if last_port < 0 {
            0
        } else if last_port > 65535 {
            65535
        } else {
            last_port as u16
        };
        PersistedDevice {
            uuid,
            public_key,
            shared_secret,
            is_accepted,
            display_name,
            last_ip,
            last_port: port,
            created_at,
            updated_at,
        }
    }

    /// A copy of the row.
    pub fn duplicate(&self) -> (r: PersistedDevice)
        ensures
            r == *self,
    {
        PersistedDevice {
            uuid: self.uuid.clone(),
            public_key: self.public_key.clone(),
            shared_secret: self.shared_secret.clone(),
            is_accepted: self.is_accepted,
            display_name: self.display_name.clone(),
            last_ip: self.last_ip.clone(),
            last_port: self.last_port,
            created_at: self.created_at,
            updated_at: self.updated_at,
        }
    }
}

/// Key entry with its session key decoded when it was not: the base64 key is decoded and kept
/// when it is 32 bytes.
pub open spec fn with_decoded_key(e: DeviceKeyEntry, d: DeviceKeyEntry) -> bool {
    &&& d.remote_pub_key == e.remote_pub_key
    &&& d.aes_key_b64 == e.aes_key_b64
    &&& match e.aes_key_bytes {
        Some(k) => d.aes_key_bytes == Some(k),
        None => match d.aes_key_bytes {
            Some(k) => base64_decoded(e.aes_key_b64@) == Some(k@),
            None => !(base64_decoded(e.aes_key_b64@) matches Some(b) && b.len() == 32),
        },
    }
}

/// Loads key-store data into the key store: the local key (when the stored PEM parses), the
/// local public key, and every device entry with its session key decoded.
pub fn apply_keystore_data(crypto: &mut CryptoState, data: &KeyStoreData)
    ensures
        match data.local_private_key_pem {
            Some(pem) => match p256_pem_secret(pem@) {
                Some(k) => final(crypto).local_key matches Some(a) && a@ == k,
                None => final(crypto).local_key is None,
            },
            None => final(crypto).local_key == old(crypto).local_key,
        },
        final(crypto).local_pub_key_b64 == data.local_public_key_b64,
        final(crypto).device_keys@.len() == data.devices@.len(),
        forall|i: int| 0 <= i < data.devices@.len() ==> (#[trigger] final(crypto).device_keys@[i]).0 == data.devices@[i].0
            && with_decoded_key(data.devices@[i].1, final(crypto).device_keys@[i].1),
{
    match &data.local_private_key_pem {
        Some(pem) => {
            crypto.local_key = match secret_from_pem(pem.as_str()) {
                Ok(k) => Some(k),
                Err(_) => None,
            };
        },
        None => {},
    }
    crypto.local_pub_key_b64 = match &data.local_public_key_b64 {
        Some(p) => Some(p.clone()),
        None => None,
    };
    let mut keys: Vec<(String, DeviceKeyEntry)> = Vec::new();
    let mut i: usize = 0;
    while i < data.devices.len()
        invariant
            i <= data.devices.len(),
            keys@.len() == i,
            forall|j: int| 0 <= j < i ==> (#[trigger] keys@[j]).0 == data.devices@[j].0
                && with_decoded_key(data.devices@[j].1, keys@[j].1),
        decreases data.devices.len() - i,
    {
        let e = &data.devices[i].1;
        let bytes = match e.aes_key_bytes {
            Some(k) => Some(k),
            None => decode_key(e.aes_key_b64.as_str()),
        };
        keys.push((data.devices[i].0.clone(), DeviceKeyEntry {
            remote_pub_key: e.remote_pub_key.clone(),
            aes_key_b64: e.aes_key_b64.clone(),
            aes_key_bytes: bytes,
        }));
        i = i + 1;
    }
    crypto.device_keys = keys;
}

/// Merges stored device rows into memory: a row with a key the key store lacks supplies it
/// (when the key decodes to 32 bytes); every row is cached by device.
pub fn merge_device_rows(crypto: &mut CryptoState, devices: &mut Vec<(String, PersistedDevice)>, rows: Vec<PersistedDevice>)
    ensures
        final(crypto).local_key == old(crypto).local_key,
        final(devices)@.len() == old(devices)@.len() + rows@.len(),
        final(devices)@.take(old(devices)@.len() as int) == old(devices)@,
        forall|i: int| 0 <= i < rows@.len() ==> (#[trigger] final(devices)@[old(devices)@.len() + i]).1 == rows@[i]
            && final(devices)@[old(devices)@.len() + i].0 == rows@[i].uuid,
        forall|k: Seq<char>| (#[trigger] last_value(old(crypto).device_keys@, k)) is Some
            ==> last_value(final(crypto).device_keys@, k) == last_value(old(crypto).device_keys@, k),
{
    let ghost start_devices = devices@;
    let ghost start_keys = crypto.device_keys@;
    let mut i: usize = 0;
    let n = rows.len();
    while i < n
        invariant
            i <= n,
            n == rows@.len(),
            crypto.local_key == old(crypto).local_key,
            devices@.len() == start_devices.len() + i,
            devices@.take(start_devices.len() as int) == start_devices,
            start_devices == old(devices)@,
            start_keys == old(crypto).device_keys@,
            forall|j: int| 0 <= j < i ==> (#[trigger] devices@[start_devices.len() + j]).1 == rows@[j]
                && devices@[start_devices.len() + j].0 == rows@[j].uuid,
            forall|k: Seq<char>| (#[trigger] last_value(start_keys, k)) is Some
                ==> last_value(crypto.device_keys@, k) == last_value(start_keys, k),
        decreases n - i,
    {
        let row = &rows[i];
        if !row.shared_secret.as_str().is_empty() && !crypto.has_device_key(row.uuid.as_str()) {
            match decode_key(row.shared_secret.as_str()) {
                Some(_) => {
                    let ghost before = crypto.device_keys@;
                    crypto.set_device_key(row.uuid.clone(), row.public_key.clone(), row.shared_secret.clone());
                    assert forall|k: Seq<char>| (#[trigger] last_value(start_keys, k)) is Some
                        implies last_value(crypto.device_keys@, k) == last_value(start_keys, k) by {
                        if k == row.uuid@ {
                            assert(last_value(before, k) is None);
                        }
                    }
                },
                None => {},
            }
        }
        let ghost before_devices = devices@;
        devices.push((row.uuid.clone(), row.duplicate()));
        assert(devices@.take(start_devices.len() as int) =~= before_devices.take(start_devices.len() as int));
        i = i + 1;
    }
}

/// What the key store persists: the local secret as PEM (none when there is none, or it is not
/// a valid scalar), the local public key, and every device entry.
pub fn export_keystore(crypto: &CryptoState) -> (r: KeyStoreData)
    ensures
        r.local_private_key_pem is Some <==> (crypto.local_key matches Some(k) && p256_valid_scalar(k@)),
        r.local_private_key_pem matches Some(p) ==> (crypto.local_key matches Some(k) && p@ == p256_secret_pem(k@)),
        r.local_public_key_b64 == crypto.local_pub_key_b64,
        r.devices@ == crypto.device_keys@,
{
    let pem = match &crypto.local_key {
        Some(k) => match secret_to_pem(k) {
            Ok(p) => Some(p),
            Err(_) => None,
        },
        None => None,
    };
    let mut devices: Vec<(String, DeviceKeyEntry)> = Vec::new();
    let mut i: usize = 0;
    while i < crypto.device_keys.len()
        invariant
            i <= crypto.device_keys@.len(),
            devices@ == crypto.device_keys@.take(i as int),
        decreases crypto.device_keys.len() - i,
    {
        let (u, e) = &crypto.device_keys[i];
        let entry = DeviceKeyEntry {
            remote_pub_key: e.remote_pub_key.clone(),
            aes_key_b64: e.aes_key_b64.clone(),
            aes_key_bytes: e.aes_key_bytes,
        };
        devices.push((u.clone(), entry));
        i = i + 1;
        assert(devices@ =~= crypto.device_keys@.take(i as int));
    }
    assert(devices@ =~= crypto.device_keys@);
    KeyStoreData { local_private_key_pem: pem, local_public_key_b64: crypto.local_pub_key_b64.clone(), devices }
}

/// Law: loading exported key-store data gives every device back its public key and its
/// session key (`export_keystore` copies the entries; `apply_keystore_data` keeps each entry
/// with its key decoded).
pub proof fn law_keystore_roundtrip(before: Seq<(String, DeviceKeyEntry)>, after: Seq<(String, DeviceKeyEntry)>)
    requires
        after.len() == before.len(),
        forall|i: int| 0 <= i < before.len() ==> (#[trigger] after[i]).0 == before[i].0
            && with_decoded_key(before[i].1, after[i].1),
    ensures
        forall|i: int| 0 <= i < before.len() ==> {
            &&& (#[trigger] after[i]).0 == before[i].0
            &&& after[i].1.remote_pub_key == before[i].1.remote_pub_key
            &&& session_key_of(after[i].1) == session_key_of(before[i].1)
        },
{
    assert forall|i: int| 0 <= i < before.len() implies {
        &&& (#[trigger] after[i]).0 == before[i].0
        &&& after[i].1.remote_pub_key == before[i].1.remote_pub_key
        &&& session_key_of(after[i].1) == session_key_of(before[i].1)
    } by {
        let e = before[i].1;
        let d = after[i].1;
        assert(with_decoded_key(e, d));
        match d.aes_key_bytes {
            Some(k) => {
                assert(k@.len() == 32);
            },
            None => {},
        }
    }
}

} // verus!
