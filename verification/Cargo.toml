[package]
name = "helix_daemon"
version = "0.1.0"
edition = "2021"
publish = false

[dependencies]
anyhow = "*"
chrono = "*"
fern = "*"
futures-util = "*"
log = "*"
signal-hook = "*"
signal-hook-tokio = { version = "*", features = ["futures-v0_3"] }
tokio = { version = "*", features = ["rt", "macros", "sync", "net", "time"] }
tokio-seqpacket = "*"
