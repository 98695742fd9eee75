[package]
name = "jumping_frog_problem"
version = "0.1.0"
edition = "2021"
publish = false

[dependencies]
anyhow = "1"
cliclack = "*"
crossterm = "*"
rand = "0.8"
serde = { version = "1", features = ["derive"] }
toml = "0.8"
