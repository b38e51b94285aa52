[package]
name = "hexapod"
version = "0.1.0"
edition = "2021"
publish = false

[dependencies]
sha2 = "=0.10.9"
serde = { version = "=1.0.229", features = ["derive"] }
serde_json = "=1.0.154"
toml = "=0.8.23"
anyhow = "=1.0.104"
thiserror = "=1.0.69"
glam = "=0.29.3"
libc = "=0.2.191"
pwm-pca9685 = "=1.0.0"
linux-embedded-hal = { version = "=0.4.1", default-features = false, features = ["i2c"] }
rand = { version = "=0.8.8", features = ["small_rng"] }
reqwest = { version = "=0.12.28", default-features = false, features = ["blocking", "json"] }
tokio = { version = "=1.54.1", features = ["sync", "net", "rt-multi-thread", "macros"] }
axum = { version = "0.7", default-features = false, features = ["json", "tokio", "http1"] }
