[package]
name = "perf_events"
version = "0.1.0"
edition = "2021"
publish = false

[dependencies]
libc = "0.2"
nix = "*"
bytes = "0.4"
tokio-codec = "0.1"
failure = "0.1"
failure_derive = "0.1"
