[package]
name = "ctf_sniper"
version = "0.1.0"
edition = "2021"
publish = false

[dependencies]
serde_json = "1"
reqwest = { version = "0.12", default-features = false }
tokio = { version = "1", features = ["rt-multi-thread", "macros", "time"] }
argh = "0.1"
chrono = "0.4"
color-eyre = "0.6"
