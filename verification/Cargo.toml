[package]
name = "nym"
version = "0.1.0"
edition = "2021"
publish = false

[dependencies]
curve25519-dalek = { version = "4", features = ["rand_core", "serde", "digest"] }
digest = "0.10"
futures = "0.3"
merlin = "3"
rand = "0.8"
schnorrkel = "0.11"
serde = { version = "1", features = ["derive"] }
thiserror = "1"
trait-variant = "0.1"

[dev-dependencies]
serde_json = "1"
