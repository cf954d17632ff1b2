[package]
name = "audiocast"
version = "0.1.0"
edition = "2021"
publish = false

[dependencies]
byteorder = "1"
opus = "0.3"
serde = { version = "1", features = ["derive"] }
serde_json = "1"
uuid = { version = "1", features = ["v4"] }
log = "0.4"
mdns-sd = "*"
cpal = "0.15"
tokio = { version = "1", features = ["net", "io-util", "time", "rt-multi-thread", "macros", "sync"] }
