[package]
name = "trident_sysext"
version = "0.1.0"
edition = "2021"
publish = false

[dependencies]
anyhow = "*"
etc-os-release = "*"
log = "*"
schemars = "*"
serde = { version = "*", features = ["derive"] }
serde_json = "*"
serde_yaml = "*"
url = "*"
