pub mod header;
pub mod version;
pub mod binary_codec;
pub mod codec;
pub mod inbound;
pub mod json_frames;
