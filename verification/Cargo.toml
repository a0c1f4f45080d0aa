[package]
name = "album_cache"
version = "0.1.0"
edition = "2021"
publish = false

[dependencies]
sha256 = "1"
image = "0.24"
rusqlite = { version = "0.31", features = ["bundled"] }
actix-web = "4"
actix-files = "0.6"
actix-cors = "0.7"
actix-rt = "2"
clap = { version = "4", features = ["derive"] }
serde = { version = "1", features = ["derive"] }
anyhow = "1"
dunce = "1"
