[package]
name = "lucky_sprint"
version = "0.1.0"
edition = "2021"
publish = false

[dependencies]
anyhow = "=1.0.104"
chrono = "=0.4.45"
image = { version = "=0.25.10", default-features = false, features = ["png"] }
maa-framework = { version = "=1.27.0", features = ["dynamic"] }
parking_lot = "=0.12.5"
serde = { version = "=1.0.229", features = ["derive"] }
serde_json = "=1.0.154"
walkdir = "=2.5.0"
windows-sys = { version = "=0.61.2", features = ["Win32_System_LibraryLoader"] }
