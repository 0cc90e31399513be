[package]
name = "imagefit"
version = "0.1.0"
edition = "2021"
publish = false

[dependencies]
image = "=0.25.10"
imagequant = "=4.4.1"
rgb = "=0.8.53"
axum = { version = "=0.8.9", features = ["multipart"] }
tokio = { version = "=1.53.2", features = ["full"] }
serde = { version = "=1.0.229", features = ["derive"] }
