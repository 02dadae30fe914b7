[package]
name = "vcam-proxy"
version = "0.1.0"
edition = "2021"
publish = false

[dependencies]
clap = { version = "4", features = ["derive"] }
crossbeam-channel = "0.5"
ctrlc = "3"
dirs = "5"
image = { version = "0.25", default-features = false, features = ["png", "jpeg"] }
ksni = { version = "0.3", features = ["blocking"] }
nokhwa = { version = "0.10", default-features = false, features = ["decoding"] }
open = "5"
serde = { version = "1", features = ["derive"] }
thiserror = "1"
toml = "0.8"
tracing = "0.1"
tracing-subscriber = { version = "0.3", features = ["env-filter"] }
v4l = "0.14"
