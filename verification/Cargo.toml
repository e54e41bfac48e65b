[package]
name = "mirror_upload"
version = "0.1.0"
edition = "2021"
publish = false

[dependencies]
async-stream = "*"
async-trait = "*"
bytes = "*"
clap = { version = "*", features = ["derive"] }
console = "*"
futures = "*"
indicatif = "*"
miette = "*"
regex = "*"
reqwest = { version = "*", default-features = false, features = ["json", "stream"] }
serde = { version = "*", features = ["derive"] }
serde_json = "*"
tokio = { version = "*", features = ["full"] }
toml = "*"
