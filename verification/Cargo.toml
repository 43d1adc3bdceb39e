[package]
name = "ntfy_app"
version = "0.2.4"
edition = "2021"
publish = false

[dependencies]
url = "2"
sanitize-filename = "0.6"
chrono = "0.4"
serde = { version = "1", features = ["derive"] }
serde_json = "1"
uuid = { version = "1", features = ["v4"] }
rusqlite = { version = "0.41", features = ["bundled"] }
tokio = { version = "1", features = ["sync", "time", "rt"] }
tokio-tungstenite = "0.30"
futures-util = "0.3"
system_shutdown = "4"
volumecontrol = "0.1"
