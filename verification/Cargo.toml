[package]
name = "flash"
version = "0.1.0"
edition = "2021"
publish = false

[dependencies]
anyhow = "*"
clap = { version = "*", features = ["derive"] }
dirs = "*"
env_logger = "*"
flate2 = "*"
indicatif = "*"
log = "*"
rpassword = "*"
serde = { version = "*", features = ["derive"] }
sha2 = "*"
ssh2 = "*"
tar = "*"
toml = "*"
walkdir = "*"
zip = { version = "*", default-features = false, features = ["deflate"] }
