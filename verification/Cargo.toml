[package]
name = "cg_decode"
version = "0.1.0"
edition = "2021"
publish = false

[dependencies]
anyhow = "1"
bytes = "1"
clap = { version = "4", features = ["derive"] }
encoding_rs = "0.8"
hashbrown = "*"
image = { version = "0.25", default-features = false, features = ["png"] }
