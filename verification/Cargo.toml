[package]
name = "jobacct"
version = "0.1.0"
edition = "2021"
publish = false

[dependencies]
libc = "0.2"
procfs = { version = "0.17", default-features = false }
libproc = "0.14"
tokio = { version = "1", features = ["process", "rt", "time"] }
