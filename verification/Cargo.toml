[package]
name = "newscenter"
version = "0.1.0"
edition = "2021"
publish = false

[dependencies]
regex = "1"
quick-xml = "0.37"
hound = "3.5"
ffmpeg-next = "7"
reqwest = { version = "0.12", features = ["json", "multipart", "stream"] }
serde = { version = "1", features = ["derive"] }
serde_json = "1"
tokio = { version = "1", features = ["fs", "io-util", "macros", "rt-multi-thread"] }
futures-util = "0.3"
anyhow = "1"
thiserror = "1"
dotenv = "0.15"
rusqlite = { version = "*", features = ["bundled"] }
