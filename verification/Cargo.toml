[package]
name = "shift"
version = "0.1.0"
edition = "2021"
publish = false

[dependencies]
tokio = { version = "*", features = ["full"] }
serde = { version = "*", features = ["derive"] }
serde_json = "*"
thiserror = "*"
nix = { version = "*", features = ["socket", "uio"] }
libc = "*"
futures = "*"
tracing = "*"
