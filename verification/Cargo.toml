[package]
name = "kraken"
version = "0.1.0"
edition = "2021"
publish = false

[dependencies]
chrono = "*"
version-compare = "*"
clap = { version = "*", features = ["derive"] }
clap-cargo = "*"
colored = "*"
serde = { version = "*", features = ["derive"] }
serde-inline-default = "*"
toml = "*"
