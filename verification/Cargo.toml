[package]
name = "unity_unpacker"
version = "0.1.0"
edition = "2021"
publish = false

[dependencies]
anyhow = "1"
clap = { version = "4", features = ["derive"] }
flate2 = "1"
gltf = { version = "1", default-features = false, features = ["names"] }
pathdiff = "0.2"
rayon = "1"
serde = { version = "1", features = ["derive"] }
serde_yaml = "0.9"
tar = "0.4"
