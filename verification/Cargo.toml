[package]
name = "coverage_sim"
version = "0.1.0"
edition = "2021"
publish = false

[dependencies]
rand = "=0.9.5"
serde = { version = "=1.0.229", features = ["derive"] }
serde_json = "=1.0.154"
serde_yaml = "=0.9.34"
toml = "=0.8.23"
clap = { version = "=4.6.7", features = ["derive"] }
clap_complete = "4"
colored = "=2.2.0"
chrono = "=0.4.45"
image = { version = "0.25", default-features = false, features = ["png"] }
