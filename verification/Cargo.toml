[package]
name = "shairport-sync-rs"
version = "0.1.0"
edition = "2021"
publish = false

[dependencies]
clap = { version = "=4.6.7", features = ["derive"] }
serde = { version = "=1.0.229", features = ["derive"] }
toml = "=1.1.8"
fs2 = "=0.4.3"
tokio = { version = "=1.54.1", features = ["macros", "rt-multi-thread", "signal"] }
tracing = "=0.1.44"
tracing-subscriber = { version = "=0.3.23", features = ["env-filter"] }
shairplay = { version = "=0.10.0", features = ["ap2"] }
alsa = "=0.12.1"
