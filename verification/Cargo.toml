[package]
name = "sound_modder"
version = "0.1.0"
edition = "2021"
publish = false

[dependencies]
indexmap = "=2.14.2"
eyre = "=0.6.14"
log = "=0.4.34"
parking_lot = "=0.12.5"
thiserror = "=2.0.21"
serde = { version = "=1.0.229", features = ["derive"] }
serde_json = "*"
hound = "=3.5.1"
bs1770 = "=1.0.0"
