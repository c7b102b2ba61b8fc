[package]
name = "felix"
version = "2.2.6"
edition = "2021"
publish = false

[dependencies]
unicode-width = "0.1"
natord = "1.0.9"
content_inspector = "0.2.4"
crossterm = "0.27"
serde = { version = "1", features = ["derive"] }
serde_yaml = "0.9"
dirs = "5"
chrono = "0.4"
log = "0.4"
simplelog = "0.12"
walkdir = "2"
flate2 = "1"
lzma-rs = "0.3"
zstd = "0.13"
zip = "0.6"
tar = "0.4"
nix = "0.26"
normpath = "1"
git2 = "0.18"
