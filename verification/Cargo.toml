[package]
name = "forgelag"
version = "0.1.0"
edition = "2021"
publish = false

[dependencies]
arrow = { version = "*", default-features = false }
parquet = { version = "*", default-features = false, features = ["arrow"] }
clap = { version = "4", features = ["derive"] }
csv = "1"
serde = { version = "1", features = ["derive"] }
rayon = "1"
