[package]
name = "creature_context"
version = "0.1.0"
edition = "2021"
publish = false

[dependencies]
blake3 = "1"
serde = { version = "1", features = ["derive"] }
serde_json = "1"
uuid = { version = "1", features = ["v4", "v7", "serde"] }
chrono = "0.4"
notify = "*"
tokio = { version = "1", features = ["rt", "rt-multi-thread", "time", "macros"] }
rusqlite = { version = "*", features = ["bundled"] }
tree-sitter = "*"
thiserror = "*"
