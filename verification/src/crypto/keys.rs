//! The key store: the local key pair and, per paired device, its public key and the
//! session key (base64, with the decoded bytes kept alongside).
use vstd::prelude::*;
use vstd::string::*;
use crate::crypto::b64::{base64_decoded, decode_key};
use crate::text::{owned, str_eq};
use crate::vecmap::{last_value, remove_key, without_key, lemma_without_key_absent, lemma_without_key_other};

verus! {

/// Keys of one paired device.
pub struct DeviceKeyEntry {
    pub remote_pub_key: String,
    pub aes_key_b64: String,
    /// The decoded session key, when it decodes to 32 bytes.
    pub aes_key_bytes: Option<[u8; 32]>,
}

/// What the key store persists.
pub struct KeyStoreData {
    pub local_private_key_pem: Option<String>,
    pub local_public_key_b64: Option<String>,
    pub devices: Vec<(String, DeviceKeyEntry)>,
}

/// The keys in memory.
pub struct CryptoState {
    /// The local secret scalar.
    pub local_key: Option<[u8; 32]>,
    pub local_pub_key_b64: Option<String>,
    /// device -> keys (one entry per device).
    pub device_keys: Vec<(String, DeviceKeyEntry)>,
}

/// The session key of an entry: the cached bytes, else its base64 text when that decodes to
/// 32 bytes.
pub open spec fn session_key_of(e: DeviceKeyEntry) -> Option<Seq<u8>> {
    match e.aes_key_bytes {
        Some(k) => Some(k@),
        None => match base64_decoded(e.aes_key_b64@) {
            Some(b) => if b.len() == 32 { Some(b) } else { None },
            None => None,
        },
    }
}

/// Index of the last entry of `uuid`.
fn entry_index(m: &Vec<(String, DeviceKeyEntry)>, uuid: &str) -> (r: Option<usize>)
    ensures
        match r {
            Some(i) => i < m@.len() && last_value(m@, uuid@) == Some(m@[i as int].1),
            None => last_value(m@, uuid@) is None,
        },
{
    let mut found: Option<usize> = None;
    let mut i: usize = 0;
    assert(m@.take(0) =~= Seq::<(String, DeviceKeyEntry)>::empty());
    while i < m.len()
        invariant
            i <= m.len(),
            match found {
                Some(j) => j < i && last_value(m@.take(i as int), uuid@) == Some(m@[j as int].1),
                None => last_value(m@.take(i as int), uuid@) is None,
            },
        decreases m.len() - i,
    {
        assert(m@.take(i + 1).drop_last() =~= m@.take(i as int));
        if str_eq(m[i].0.as_str(), uuid) {
            found = Some(i);
        }
        i = i + 1;
    }
    assert(m@.take(m.len() as int) =~= m@);
    found
}

impl CryptoState {
    /// No local key, no device keys.
    pub fn new() -> (r: CryptoState)
        ensures
            r.local_key is None,
            r.local_pub_key_b64 is None,
            r.device_keys@.len() == 0,
    {
        CryptoState { local_key: None, local_pub_key_b64: None, device_keys: Vec::new() }
    }

    /// The session key shared with `remote_uuid`: the cached bytes, else the base64 key when
    /// it decodes to 32 bytes.
    pub fn get_aes_key(&self, remote_uuid: &str) -> (r: Option<[u8; 32]>)
        ensures
            match last_value(self.device_keys@, remote_uuid@) {
                None => r is None,
                Some(e) => match session_key_of(e) {
                    Some(k) => r matches Some(a) && a@ == k,
                    None => r is None,
                },
            },
    {
        match entry_index(&self.device_keys, remote_uuid) {
            None => None,
            Some(i) => {
                let entry = &self.device_keys[i].1;
                match entry.aes_key_bytes {
                    Some(k) => Some(k),
                    None => decode_key(entry.aes_key_b64.as_str()),
                }
            },
        }
    }

    /// Whether keys of `uuid` are stored.
    pub fn has_device_key(&self, uuid: &str) -> (r: bool)
        ensures
            r == last_value(self.device_keys@, uuid@) is Some,
    {
        entry_index(&self.device_keys, uuid).is_some()
    }

    /// The stored public key of `uuid`, if any.
    pub fn remote_pub_key(&self, uuid: &str) -> (r: Option<String>)
        ensures
            match last_value(self.device_keys@, uuid@) {
                None => r is None,
                Some(e) => r matches Some(p) && p@ == e.remote_pub_key@,
            },
    {
        match entry_index(&self.device_keys, uuid) {
            None => None,
            Some(i) => Some(self.device_keys[i].1.remote_pub_key.clone()),
        }
    }

    /// Stores the keys of `uuid`, replacing earlier ones; the base64 key is decoded once and
    /// kept when it is 32 bytes.
    pub fn set_device_key(&mut self, uuid: String, remote_pub_key: String, aes_key_b64: String)
        ensures
            final(self).local_key == old(self).local_key,
            final(self).local_pub_key_b64 == old(self).local_pub_key_b64,
            last_value(final(self).device_keys@, uuid@) matches Some(e) && {
                &&& e.remote_pub_key@ == remote_pub_key@
                &&& e.aes_key_b64@ == aes_key_b64@
                &&& match e.aes_key_bytes {
                    Some(k) => base64_decoded(aes_key_b64@) == Some(k@),
                    None => !(base64_decoded(aes_key_b64@) matches Some(b) && b.len() == 32),
                }
            },
            forall|o: Seq<char>| o != uuid@ ==> #[trigger] last_value(final(self).device_keys@, o) == last_value(old(self).device_keys@, o),
    {
        let bytes = decode_key(aes_key_b64.as_str());
        self.insert_entry(uuid, DeviceKeyEntry { remote_pub_key, aes_key_b64, aes_key_bytes: bytes });
    }

    /// Stores `entry` for `uuid`, replacing earlier entries of it.
    pub fn insert_entry(&mut self, uuid: String, entry: DeviceKeyEntry)
        ensures
            final(self).local_key == old(self).local_key,
            final(self).local_pub_key_b64 == old(self).local_pub_key_b64,
            last_value(final(self).device_keys@, uuid@) == Some(entry),
            forall|o: Seq<char>| o != uuid@ ==> #[trigger] last_value(final(self).device_keys@, o) == last_value(old(self).device_keys@, o),
    {
        let ghost before = self.device_keys@;
        self.remove_device_key(uuid.as_str());
        let ghost mid = self.device_keys@;
        let ghost u = uuid@;
        self.device_keys.push((uuid, entry));
        assert(self.device_keys@.drop_last() =~= mid);
        assert forall|o: Seq<char>| o != u implies #[trigger] last_value(self.device_keys@, o) == last_value(mid, o) by {
            assert(self.device_keys@.last().0@ == u);
        }
    }

    /// Takes over a raw session key of `uuid` migrated from elsewhere (no public key known);
    /// a key that is not 32 bytes is refused and nothing changes.
    pub fn import_raw_key(&mut self, uuid: &str, key: &[u8]) -> (r: bool)
        ensures
            r == (key@.len() == 32),
            !r ==> *final(self) == *old(self),
            final(self).local_key == old(self).local_key,
            final(self).local_pub_key_b64 == old(self).local_pub_key_b64,
            r ==> (last_value(final(self).device_keys@, uuid@) matches Some(e)
                && e.remote_pub_key@ == Seq::<char>::empty()
                && e.aes_key_b64@ == crate::crypto::b64::base64_of(key@)
                && (e.aes_key_bytes matches Some(k) ==> base64_decoded(e.aes_key_b64@) == Some(k@))),
            r ==> forall|o: Seq<char>| o != uuid@ ==> #[trigger] last_value(final(self).device_keys@, o)
                == last_value(old(self).device_keys@, o),
    {
        if key.len() != 32 {
            return false;
        }
        let b64 = crate::crypto::b64::b64_encode_bytes(key);
        self.set_device_key(owned(uuid), String::new(), b64);
        true
    }

    /// Forgets the keys of `uuid`.
    pub fn remove_device_key(&mut self, uuid: &str)
        ensures
            final(self).local_key == old(self).local_key,
            final(self).local_pub_key_b64 == old(self).local_pub_key_b64,
            last_value(final(self).device_keys@, uuid@) is None,
            forall|o: Seq<char>| o != uuid@ ==> #[trigger] last_value(final(self).device_keys@, o) == last_value(old(self).device_keys@, o),
    {
        let ghost before = self.device_keys@;
        remove_key(&mut self.device_keys, uuid);
        proof {
            lemma_without_key_absent(before, uuid@);
            assert forall|o: Seq<char>| o != uuid@ implies #[trigger] last_value(self.device_keys@, o) == last_value(before, o) by {
                lemma_without_key_other(before, uuid@, o);
            }
        }
    }
}

} // verus!
