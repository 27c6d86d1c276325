[package]
name = "serves3"
version = "1.0.0"
edition = "2021"
publish = false

[dependencies]
anyhow = "1"
lazy_static = "1"
log = "0.4"
rocket = "0.5"
rocket_dyn_templates = { version = "0.2", features = ["tera"] }
rust-s3 = { version = "0.34", default-features = false, features = ["tokio-rustls-tls"] }
serde = { version = "1", features = ["derive"] }
tempfile = "3"

[dev-dependencies]
human-size = "0.4"
