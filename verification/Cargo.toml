[package]
name = "vavlt"
version = "0.1.0"
edition = "2021"
publish = false

[dependencies]
anyhow = "1"
blake3 = "1"
infer = "*"
lepton_jpeg = "*"
oxipng = { version = "9", default-features = false }
zstd = "0.13"
image = { version = "0.25", default-features = false, features = ["png", "jpeg"] }
ravif = { version = "*", default-features = false }
rgb = "0.8"
serde = { version = "1", features = ["derive"] }
log = "0.4"
walkdir = "2"
