[package]
name = "pack_explode"
version = "0.1.0"
edition = "2021"
publish = false

[dependencies]
miniz_oxide = "0.8"
sha1 = "0.10"
serde = { version = "1", features = ["derive"] }
anyhow = "1"
