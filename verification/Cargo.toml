[package]
name = "nrush"
version = "0.1.0"
edition = "2021"
publish = false

[dependencies]
semver = "1"
serde_json = "1"
reqwest = { version = "0.11", features = ["json"] }
tokio = { version = "1", features = ["macros", "rt-multi-thread"] }
futures = "0.3"
indicatif = "0.17"
dialoguer = "0.11"
crossterm = "0.27"
