[package]
name = "fuzzy_date"
version = "0.1.0"
edition = "2021"
publish = false

[dependencies]
derive_more = "0.99"
serde = { version = "1", features = ["derive"] }
thiserror = "1"

[dev-dependencies]
serde_json = "1"
