[package]
name = "pact_matching"
version = "0.1.0"
edition = "2021"
publish = false

[dependencies]
anyhow = "1"
base64 = "0.13"
fs2 = "0.4"
hex = "0.4"
itertools = "0.10"
lenient_semver = "0.4"
serde_json = "1"
