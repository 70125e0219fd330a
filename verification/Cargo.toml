[package]
name = "stalwart"
version = "0.1.0"
edition = "2021"
publish = false

[dependencies]
xxhash-rust = { version = "=0.8.19", features = ["xxh3"] }
base64 = "=0.22.1"
sha2 = "=0.10.9"
blake3 = "=1.8.7"
mail-parser = "=0.11.9"
mail-builder = "=0.4.4"
smtp-proto = "=0.2.5"
serde = { version = "=1.0.229", features = ["derive"] }
serde_json = "=1.0.154"
decancer = "=3.3.3"
rand = "=0.9.5"
unicode-general-category = "*"
unicode-normalization = "*"
unicode-security = "*"
