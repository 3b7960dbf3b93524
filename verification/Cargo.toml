[package]
name = "ytmusic_browse"
version = "0.1.0"
edition = "2021"
publish = false

[dependencies]
serde_json = "1"
sha1 = "*"
reqwest = { version = "*", default-features = false }
tokio = { version = "1", features = ["rt", "rt-multi-thread"] }

[dev-dependencies]
varuint = "*"
