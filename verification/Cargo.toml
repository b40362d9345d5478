[package]
name = "trickster"
version = "0.1.0"
edition = "2021"
publish = false

[dependencies]
anyhow = "=1.0.104"
byteorder = "=1.5.0"
nix = "=0.23.2"

[dev-dependencies]
scan_fmt = { version = "=0.2.6", default-features = false, features = ["std"] }
