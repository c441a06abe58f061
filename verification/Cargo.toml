[package]
name = "glimpse"
version = "0.1.0"
edition = "2021"
publish = false

[dependencies]
chrono = "0.4"
dirs = "*"
hex = "0.4"
image = "0.25"
imagepipe = "0.5"
kamadak-exif = "*"
rawloader = "0.37"
rayon = "1"
rusqlite = { version = "*", features = ["bundled"] }
serde = { version = "1", features = ["derive"] }
serde_json = "1"
sha2 = "0.10"
thiserror = "*"
tokio = { version = "1", features = ["rt-multi-thread"] }
