[package]
name = "dirworld"
version = "0.1.0"
edition = "2021"
publish = false

[dependencies]
async-channel = "=2.5.0"
bevy = { version = "=0.15.1", default-features = false, features = ["bevy_asset", "bevy_state"] }
md5 = "=0.7.0"
multi_key_map = "=0.3.0"
notify = "=7.0.0"
notify-debouncer-full = "=0.4.0"
rmp-serde = "=1.3.1"
rust-crypto = "=0.2.36"
serde = { version = "=1.0.229", features = ["derive"] }
tar = "=0.4.46"
uuid = { version = "=1.29.0", features = ["v4", "serde"] }
xz2 = { version = "=0.1.7", features = ["static"] }
