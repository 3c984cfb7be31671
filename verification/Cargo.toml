[package]
name = "purpy"
version = "0.1.0"
edition = "2021"
publish = false

[dependencies]
anyhow = "1"
log = "0.4"
env_logger = "*"
clap = { version = "4", features = ["derive"] }
serde = { version = "1", features = ["derive"] }
quick-xml = { version = "*", features = ["serialize"] }
flate2 = "1"
tar = "*"
rand = "*"
num-traits = "0.2"
glob = "*"
