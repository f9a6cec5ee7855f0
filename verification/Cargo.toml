[package]
name = "rust_engineering_domain"
version = "0.1.0"
edition = "2021"
publish = false

[dependencies]
serde = { version = "1", features = ["derive"] }
semver = "1"
