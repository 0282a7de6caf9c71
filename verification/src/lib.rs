use vstd::prelude::*;

pub mod text;
pub mod vecmap;
pub mod sorted_set;
pub mod protocol;
pub mod filter;
pub mod sender_queue;
pub mod json;
pub mod json_model;
pub mod utils;
pub mod state_merge;
pub mod diff;
pub mod models;
pub mod handle;
pub mod audio_stream;
pub mod context;
pub mod network;
pub mod mdns;
pub mod clipboard;
pub mod timestamp;
pub mod dedup;
pub mod device_registry;
pub mod crypto;
pub mod heartbeat;
pub mod discovery;
pub mod reconnect;
pub mod audio_codec;
pub mod app_sync;
pub mod processing;
pub mod persistence;
pub mod ephemeral;

verus! {
} // verus!
