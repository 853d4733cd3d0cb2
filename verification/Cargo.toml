[package]
name = "lnwasi"
version = "0.1.0"
edition = "2021"

[dependencies]
anyhow = "1"
bincode = "1.3"
ipnet = "2"
libc = "0.2"
nix = { version = "*", features = ["sched", "user"] }
