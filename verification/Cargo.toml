[package]
name = "shanti"
version = "0.1.0"
edition = "2021"
publish = false

[dependencies]
clap = { version = "4", features = ["derive", "env", "cargo"] }
color-eyre = "0.6"
crossterm = "0.28"
directories = "*"
expand-tilde = "*"
git2 = { version = "*", default-features = false }
nucleo-matcher = "0.3"
ratatui = "0.29"
rayon = "1"
serde = { version = "1", features = ["derive"] }
serde_json = "1"
toml = "*"
tracing = "0.1"
ureq = "*"

[dev-dependencies]
tempfile = "3"
