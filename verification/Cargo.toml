[package]
name = "editor_platform"
version = "0.1.0"
edition = "2021"
publish = false

[dependencies]
seahash = "=4.1.0"
etagere = "=0.2.15"
image = { version = "=0.25.10", default-features = false, features = ["png", "jpeg", "webp", "gif", "bmp", "tiff", "ico", "pnm"] }
serde = { version = "=1.0.229", features = ["derive"] }
serde_json = "=1.0.154"
serde_json_lenient = "=0.2.4"
palette = "=0.7.7"
anyhow = "=1.0.104"
