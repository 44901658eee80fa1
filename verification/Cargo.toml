[package]
name = "git_rebrand"
version = "0.1.0"
edition = "2021"
publish = false

[dependencies]
anyhow = "1"
chrono = "0.4"
clap = "4"
dialoguer = "0.11"
env_logger = "0.11"
git2 = { version = "0.19", default-features = false }
log = "0.4"
regex = "1"
serde = { version = "1", features = ["derive"] }
serde_yaml = "0.9"
thiserror = "1"

[dev-dependencies]
tempfile = "3"
