[package]
name = "tonlib_shards"
version = "0.1.0"
edition = "2021"
publish = false

[dependencies]
anyhow = "=1.0.104"
bip39 = { version = "=2.2.2", features = ["rand"] }
clap = { version = "=4.6.7", features = ["derive"] }
dialoguer = "=0.12.0"
hex = "=0.4.3"
inline_colorization = "=0.1.6"
spinners = "=4.2.0"
tokio = { version = "=1.54.1", features = ["full"] }
tonlib = "=0.17.6"
