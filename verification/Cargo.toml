[package]
name = "calendar"
version = "0.1.0"
edition = "2021"
publish = false

[dependencies]
chrono = "0.4"
chrono-tz = "0.10"
serde = { version = "1", features = ["derive"] }
serde_json = "1"
reqwest = { version = "0.12", default-features = false, features = ["json", "rustls-tls"] }
windows = { version = "0.57", features = ["Win32_Foundation", "Win32_UI_WindowsAndMessaging"] }
