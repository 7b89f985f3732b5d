[package]
name = "snm"
version = "0.1.0"
edition = "2021"
publish = false

[dependencies]
regex = "1"
ring = "0.17"
rustbus = "*"
toml = "*"
serde = { version = "1", features = ["derive"] }
serde_derive = "1"
nix = "*"
libc = "0.2"
