[package]
name = "cue"
version = "0.1.0"
edition = "2021"
publish = false

[dependencies]
anyhow = "*"
dirs = "*"
reqwest = { version = "*", default-features = false }
serde = { version = "*", features = ["derive"] }
serde_json = "*"
serde_yaml = "*"
sqlx = { version = "*", features = ["runtime-tokio", "sqlite"] }
tar = "*"
tokio = { version = "*", features = ["full"] }
xz2 = { version = "*", features = ["static"] }
zip = "*"
