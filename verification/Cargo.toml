[package]
name = "raion"
version = "0.1.0"
edition = "2021"
publish = false

[dependencies]
xxhash-rust = { version = "0.8", features = ["xxh3"] }
inline_colorization = "0.1"
toml = "0.8"
