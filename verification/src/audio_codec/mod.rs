pub mod jitter;
