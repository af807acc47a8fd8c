[package]
name = "acmi_rescue"
version = "0.1.0"
edition = "2021"
publish = false

[dependencies]
anyhow = "1"
atty = "0.2"
camino = "1"
clap = { version = "3", features = ["derive"] }
flate2 = "1"
log = "0.4"
memmap = "0.7"
simplelog = "0.12"
zip = { version = "0.6", default-features = false, features = ["deflate"] }
