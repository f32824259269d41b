[package]
name = "diseq"
version = "0.1.0"
edition = "2021"
publish = false

[dependencies]
libc = "=0.2.191"
objc2-core-audio-types = { version = "=0.3.2", default-features = false, features = ["std", "CoreAudioBaseTypes", "bitflags"] }
serde = { version = "=1.0.229", features = ["derive"] }
serde_json = "=1.0.154"
