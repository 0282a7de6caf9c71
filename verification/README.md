# notify_relay_core

The core of a notification relay between paired devices (phone and desktop): device
discovery, pairing (SPAKE2 + ECDH), encrypted binary-framed messages over TCP, heartbeats
and reconnection, a send queue, clipboard and application sync, Super Island / media state
merging, mDNS, persistence and an Opus/RTP audio stream.

- `src/` is the library, written in Verus and proved: its functions state what they return
  or change in `requires` / `ensures` contracts, except the few whose result is only a
  reading of the clock or of a random source (and the trusted wrappers that make those
  reads), of which nothing can be promised. Outside crates (AES-GCM, base64, P-256, SPAKE2, HKDF, SHA-1/256,
  MD5, serde_json, rand, rtp) are reached through small trusted wrappers whose contracts say
  what the crate documents.
- `tests/` runs the library on concrete values.
- `app/` is the C interface the platform links against: sockets, threads, the SQLite
  database, the mDNS daemon, the Opus codec and the callbacks. It hands plain values to the
  library and performs what the library decides. It speaks the binary frame protocol; the
  older text-line entry points (`nrc_process_line`, `nrc_decode_line`, `nrc_send_data_message`,
  `nrc_send_heartbeat_tcp` / `_udp`, `nrc_send_discovery`, the `nrc_format_*` family) and the
  local-state encryption (`nrc_encrypt_local_state` / `nrc_decrypt_local_state`,
  `nrc_parse_superisland_inbound`) are not provided.
