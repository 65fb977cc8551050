[package]
name = "feedsync"
version = "0.1.0"
edition = "2021"
publish = false

[dependencies]
chrono = "*"
rss = "*"
reqwest = { version = "*", default-features = false, features = ["blocking"] }
rusqlite = { version = "*", features = ["bundled"] }
