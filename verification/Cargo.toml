[package]
name = "ingest"
version = "0.1.0"
edition = "2021"
publish = false

[dependencies]
nostr-types = "=0.4.0"
serde_json = "1"
