[package]
name = "mote"
version = "0.8.0"
edition = "2021"
publish = false

[dependencies]
ammonia = "4"
chrono = { version = "0.4", features = ["serde"] }
dirs = "*"
pulldown-cmark = "0.13"
rusqlite = { version = "*", features = ["bundled"] }
serde = { version = "1", features = ["derive"] }
serde_json = "1"
uuid = { version = "1", features = ["v4"] }
zip = { version = "*", default-features = false, features = ["deflate"] }
