[package]
name = "fix_layout"
version = "0.1.0"
edition = "2021"
publish = false

[dependencies]
regex = "*"
breadx = "*"
clap = { version = "*", features = ["derive"] }
serde = { version = "*", features = ["derive"] }
thiserror = "*"
toml = "*"
