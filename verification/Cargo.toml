[package]
name = "flash"
version = "0.1.0"
edition = "2021"
publish = false

[dependencies]
emojis = "=0.9.1"
owo-colors = "=4.4.0"
log = "=0.4.35"
clap = { version = "=4.6.7", features = ["derive"] }
multipeek = "=0.1.2"
pulldown-cmark = { version = "=0.13.6", default-features = false }
clang = { version = "2", features = ["runtime", "clang_10_0"] }
