[package]
name = "trybuild"
version = "1.0.0"
edition = "2021"
publish = false

[dependencies]
dissimilar = "1"
glob = "0.3"
serde = "1"
serde_derive = "1"
serde_json = "1"
termcolor = "1"
thiserror = "2"
toml = "0.8"
target-triple = "0.1"
chrono = "0.4"
parking_lot = "0.12"
