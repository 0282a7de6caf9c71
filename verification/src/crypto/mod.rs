pub mod b64;
pub mod aes;
pub mod ecdh;
pub mod hkdf;
pub mod spake2;
pub mod keys;
pub mod digest;
