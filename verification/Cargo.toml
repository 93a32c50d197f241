[package]
name = "nostr_cache"
version = "0.1.0"
edition = "2021"
publish = false

[dependencies]
redb = "*"
chrono = "*"

[dev-dependencies]
tempfile = "*"
