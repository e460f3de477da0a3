[package]
name = "typstgen"
version = "0.1.0"
edition = "2021"
publish = false

[dependencies]
clap = { version = "*", features = ["derive"] }
color-print = "*"
dirs = "*"
serde = { version = "*", features = ["derive"] }
toml = "*"
whoami = "*"
