[package]
name = "medley"
version = "0.1.0"
edition = "2021"
publish = false

[dependencies]
base64 = "0.22"
chrono = { version = "0.4", default-features = false, features = ["clock", "std"] }
crossbeam-channel = "0.5"
log = { version = "0.4", features = ["std"] }
rand = "0.9"
redb = "2"
reqwest = { version = "0.12", default-features = false, features = ["blocking", "rustls-tls"] }
rodio = { version = "0.21", default-features = false, features = ["playback", "symphonia-all"] }
serde = { version = "1", features = ["derive"] }
serde_json = "1"
signal-hook = "0.3"
simplelog = "0.12"
symphonia = { version = "0.5", features = ["all"] }
tempfile = "3"
thiserror = "2"
tokio = { version = "1", features = ["rt-multi-thread", "sync"] }
toml = "0.8"
unicode-normalization = "0.1"
url = "2"
uuid = { version = "1", features = ["v4", "serde"] }
wide = "0.7"
zbus = "5"
