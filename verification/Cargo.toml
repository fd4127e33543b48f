[package]
name = "asd"
version = "0.1.0"
edition = "2021"
publish = false

[dependencies]
anyhow = "1"
async-trait = "0.1"
clap = { version = "4", features = ["derive"] }
directories = "5"
edit = "0.1"
glob = "0.3"
log = "0.4"
pretty_env_logger = "0.5"
russh = "0.45"
scanpw = "*"
serde = { version = "1", features = ["derive"] }
strum = { version = "0.26", features = ["derive"] }
termion = "*"
tokio = { version = "1", features = ["full"] }
tokio-fd = "*"
toml = "0.8"
