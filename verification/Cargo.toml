[package]
name = "product_store"
version = "0.1.0"
edition = "2021"
publish = false

[dependencies]
anyhow = "1"
diesel = { version = "2", features = ["postgres"] }
dotenvy = "0.15"
serde = { version = "1", features = ["derive"] }
serde_json = "1"
