[package]
name = "pgp_service"
version = "0.1.0"
edition = "2021"
publish = false

[dependencies]
pgp = { version = "=0.21.0", features = ["pqc"] }
rand = "=0.8.8"
chrono = "=0.4.45"
serde = { version = "=1.0.229", features = ["derive"] }
serde_json = "=1.0.151"

[dev-dependencies]
hex = "=0.4.3"
