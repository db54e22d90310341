[package]
name = "dataset_store"
version = "0.1.0"
edition = "2021"
publish = false

[dependencies]
sled = "0.34"
bincode = "1.3"
uuid = { version = "1", features = ["v4"] }
chrono = { version = "0.4", features = ["serde"] }
serde = { version = "1", features = ["derive"] }
serde_json = "1"
anyhow = "1"
ratatui = "0.26"
crossterm = "0.27"
fake = "2"
config = { version = "0.14", default-features = false, features = ["yaml"] }
once_cell = "1"
actix-web = { version = "4", default-features = false, features = ["macros"] }
mysql = { version = "25", default-features = false, features = ["minimal"] }
