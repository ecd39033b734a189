[package]
name = "bambu_monitor"
version = "0.4.0"
edition = "2021"
publish = false

[dependencies]
chrono = "0.4"
uuid = { version = "1", features = ["v4"] }
serde = { version = "1", features = ["derive"] }
serde_json = "1"
log = "0.4"
env_logger = "*"
once_cell = "1"
directories = "*"
thiserror = "*"
rusqlite = { version = "*", features = ["bundled"] }
rumqttc = "*"
rustls = "*"
tokio = { version = "1", features = ["rt-multi-thread", "macros", "time", "sync"] }
reqwest = { version = "*", default-features = false, features = ["json"] }
