[package]
name = "tts_core"
version = "0.1.0"
edition = "2021"
publish = false

[dependencies]
unicode-normalization = "=0.1.25"
serde = { version = "=1.0.229", features = ["derive"] }
serde_json = "=1.0.151"
anyhow = "=1.0.104"
hound = "=3.5.1"
rand = "=0.10.3"
rand_distr = "=0.6.0"
clap = { version = "=4.6.7", features = ["derive"] }
libc = "=0.2.190"
ort = { version = "=2.0.0-rc.13", default-features = false, features = ["load-dynamic", "api-27"] }
