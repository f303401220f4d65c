[package]
name = "world_loom"
version = "0.1.0"
edition = "2021"
publish = false

[dependencies]
axum = { version = "0.7", features = ["ws"] }
fastanvil = "0.31"
fastnbt = "2"
futures-util = "0.3"
rusqlite = { version = "0.31", features = ["bundled", "backup"] }
serde = { version = "1", features = ["derive"] }
serde_json = "1"
sha2 = "0.10"
tokio = { version = "1", features = ["rt-multi-thread", "net", "io-util", "sync", "time", "macros"] }
uuid = { version = "1", features = ["v4"] }
valence = { version = "0.2.0-alpha.1", default-features = false, features = ["network", "player_list", "inventory", "log", "testing"] }
