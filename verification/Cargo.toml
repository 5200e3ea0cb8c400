[package]
name = "md2pk"
version = "0.1.0"
edition = "2021"
publish = false

[dependencies]
clap = { version = "*", features = ["derive"] }
color-eyre = "*"
eyre = "*"
figment = { version = "*", features = ["toml", "env"] }
reqwest = { version = "*", default-features = false, features = ["blocking"] }
serde = { version = "*", features = ["derive"] }
serde_json = "*"
tabled = "*"
toml = "*"
walkdir = "*"
