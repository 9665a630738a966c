[package]
name = "telefork"
version = "0.1.0"
edition = "2021"
publish = false

[dependencies]
camino = "1"
clap = { version = "4", features = ["derive"] }
libc = "0.2"
memfd-exec = "*"
nix = { version = "0.29", features = ["process", "ptrace", "signal", "uio"] }
proc-maps = "*"
tracing = "0.1"
tracing-subscriber = { version = "0.3", features = ["env-filter"] }

[dev-dependencies]
bincode = "1.3"
serde = "1"
