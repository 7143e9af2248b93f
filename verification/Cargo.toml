[package]
name = "ranitask"
version = "0.1.0"
edition = "2021"
publish = false

[dependencies]
rand = "0.8"
serde = { version = "1", features = ["derive"] }
serde_json = "1"
dirs = "5"
winapi = { version = "0.3", features = ["winuser", "wingdi", "profileapi", "libloaderapi", "processthreadsapi", "minwindef", "windef", "ntdef"] }
