[package]
name = "nftver"
version = "0.1.0"
edition = "2021"
publish = false

[dependencies]
ab_glyph = "0.2"
chrono = "0.4"
clap = "2"
image = { version = "0.25", default-features = false, features = ["png"] }
paq = "*"
qrcode = "0.14"
serde = "1"
serde_derive = "1"
toml = "*"
url = "*"
