[package]
name = "yap_to_text"
version = "0.1.0"
edition = "2021"
publish = false

[dependencies]
reqwest = { version = "*", default-features = false, features = ["blocking", "json"] }
serde = { version = "*", features = ["derive"] }
serde_json = "*"
cpal = "*"
whisper-rs = "*"
dirs = "*"

[dev-dependencies]
hound = "*"
