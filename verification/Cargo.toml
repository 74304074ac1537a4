[package]
name = "dev_server"
version = "0.1.0"
edition = "2021"
publish = false

[dependencies]
anyhow = "1"
camino = "1"
clap = { version = "4", features = ["derive"] }
derive_more = { version = "1", features = ["debug"] }
log = "0.4"
