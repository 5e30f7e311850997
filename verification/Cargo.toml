[package]
name = "netfs_unlker"
version = "0.1.0"
edition = "2021"
publish = false

[dependencies]
clap = { version = "*", features = ["derive"] }
libc = "*"
log = "*"
simple_logger = "*"
tempfile = "*"
