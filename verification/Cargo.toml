[package]
name = "sherif"
version = "0.1.0"
edition = "2021"
publish = false

[dependencies]
anyhow = "*"
clap = { version = "*", features = ["derive"] }
colored = "*"
detect-indent = "*"
detect-newline-style = "*"
indexmap = { version = "*", features = ["serde"] }
inquire = "*"
semver = "*"
serde = { version = "*", features = ["derive"] }
serde_json = { version = "*", features = ["preserve_order"] }
serde_yaml = "*"
