[package]
name = "unsound"
version = "0.1.0"
edition = "2021"
publish = false

[dependencies]
serde = { version = "1", features = ["derive"] }
serde_json = "1"
mp4 = "*"
ogg = "*"
symphonia = "*"
rubato = "*"
rusqlite = { version = "*", features = ["bundled"] }
tokio = { version = "1", features = ["fs", "io-util"] }
futures-util = "*"
reqwest = { version = "*", features = ["json", "multipart", "stream"] }
