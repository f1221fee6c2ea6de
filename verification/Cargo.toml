[package]
name = "exzip"
version = "0.1.0"
edition = "2021"
publish = false

[dependencies]
anyhow = "1"
cap-fs-ext = "3"
cap-primitives = "3"
cap-std = "3"
chrono = "0.4"
clap = { version = "4", features = ["derive"] }
ctrlc = "3"
dialoguer = "0.11"
encoding_rs = "0.8"
pathdiff = "0.2"
tempfile = "3"
zip = { version = "0.6", default-features = false, features = ["deflate"] }
