[package]
name = "kube_inventory"
version = "0.1.0"
edition = "2021"
publish = false

[dependencies]
flate2 = "1"
ring = "*"
regex = "1"
envmnt = "*"
procfs = "*"
serde = { version = "1", features = ["derive"] }
serde_yaml = "*"
