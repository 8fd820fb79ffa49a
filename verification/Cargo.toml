[package]
name = "ferrosync_core"
version = "0.1.0"
edition = "2021"
publish = false

[dependencies]
libc = "0.2"
memmap2 = "*"
thiserror = "*"
tokio = { version = "1", features = ["io-util", "macros", "rt", "sync", "time"] }
tracing = "0.1"
