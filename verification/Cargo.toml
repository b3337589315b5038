[package]
name = "greentic_operator_core"
version = "0.1.0"
edition = "2021"
publish = false

[dependencies]
anyhow = "=1.0.104"
serde = { version = "=1.0.229", features = ["derive"] }
serde_json = "=1.0.154"
serde_yaml_bw = "=2.5.8"
directories-next = "=2.0.0"
clap = { version = "=4.6.7", features = ["derive"] }
