[package]
name = "vm"
version = "0.3.0"
edition = "2021"
publish = false

[dependencies]
chrono = "0.4"
clap = "2"
directories = "5"
failure = "0.1"
serde = { version = "1", features = ["derive"] }
serde_derive = "1"
toml = "0.5"
