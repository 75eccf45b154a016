[package]
name = "bingus_blog"
version = "0.1.0"
edition = "2021"
publish = false

[dependencies]
axum = "=0.8.9"
bitcode = { version = "=0.6.9", features = ["serde"] }
chrono = { version = "=0.4.45", features = ["serde"] }
comrak = "=0.44.0"
serde = { version = "=1.0.229", features = ["derive"] }
serde_json = "=1.0.151"
serde_yaml = "=0.9.34"
syntect = "=5.3.0"
tokio = { version = "=1.53.2", features = ["full"] }
toml = "=1.1.7"
zstd = "=0.14.0"
