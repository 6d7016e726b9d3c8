[package]
name = "kustomize_pass"
version = "0.1.0"
edition = "2021"
publish = false

[dependencies]
anyhow = "1"
base64 = "0.13"
blake2 = "0.10"
clap = { version = "*", features = ["derive"] }
directories = "*"
git2 = "*"
libpass = "*"
log = "*"
okapi = "*"
pretty_env_logger = "*"
schemars = "0.8"
serde = { version = "1", features = ["derive"] }
serde_json = "1"
serde_yaml = "*"
subprocess = "*"
