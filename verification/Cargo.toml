[package]
name = "notify_relay_core"
version = "0.2.0"
edition = "2021"
publish = false

[dependencies]
aes-gcm = "=0.10.3"
base64 = "=0.22.1"
hkdf = "=0.12.4"
sha2 = "=0.10.9"
sha1 = "=0.10.7"
md5 = "=0.7.0"
rand = "=0.8.8"
uuid = { version = "=1.29.0", features = ["v4"] }
serde = { version = "=1.0.229", features = ["derive"] }
serde_json = "=1.0.154"
p256 = { version = "=0.13.2", features = ["ecdh", "pem"] }
spake2 = "=0.4.0"
log = "=0.4.35"
socket2 = { version = "=0.5.10", features = ["all"] }
local-ip-address = "=0.6.13"
threadpool = "=1.8.1"
mdns-sd = "=0.21.7"
rusqlite = { version = "=0.41.1", features = ["bundled"] }
bytes = "1"
rtp = "*"
webrtc-util = { version = "*", default-features = false, features = ["marshal"] }
opus = "*"
ruopus = "*"
