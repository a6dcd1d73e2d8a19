[package]
name = "mac_window_resizer"
version = "0.1.0"
edition = "2021"
publish = false

[dependencies]
block2 = "=0.6.2"
objc2 = "=0.6.5"
objc2-app-kit = "=0.3.2"
objc2-application-services = "=0.3.2"
objc2-core-foundation = "=0.3.2"
objc2-foundation = "=0.3.2"
serde = { version = "=1.0.229", features = ["derive"] }
serde_json = "=1.0.154"
toml = "=1.1.8"
