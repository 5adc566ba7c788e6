[package]
name = "metel"
version = "0.1.0"
edition = "2021"
publish = false

[dependencies]
clap = { version = "4", features = ["derive"] }
pest_meta = "2"
serde = { version = "1", features = ["derive"] }
toml = "0.8"
