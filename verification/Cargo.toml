[package]
name = "uring_runtime"
version = "0.1.0"
edition = "2021"
publish = false

[dependencies]
clap = { version = "4", features = ["derive"] }
futures = "0.3"
nix = { version = "0.30", features = ["net", "socket"] }
