[package]
name = "owl"
version = "0.1.0"
edition = "2021"
publish = false

[dependencies]
half = "2"
rayon = "1"
base64 = "0.22"
bincode = "1"
interprocess = "2"
parking_lot = "0.12"
serde = { version = "1", features = ["derive"] }
serde_json = "1"
thiserror = "1"
