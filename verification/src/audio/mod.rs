pub mod decoder;
pub mod jitter;
pub mod output;
