[package]
name = "irate_goose"
version = "0.1.0"
edition = "2021"
publish = false

[dependencies]
xxhash-rust = { version = "*", features = ["xxh3"] }
anyhow = "*"
clap = { version = "*", features = ["derive"] }
dirs = "*"
env_logger = "*"
log = "*"
rayon = "*"
serde = { version = "*", features = ["derive"] }
toml = "*"
