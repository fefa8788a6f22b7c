[package]
name = "netshare"
version = "0.1.0"
edition = "2021"
publish = false

[dependencies]
serde = { version = "=1.0.229", features = ["derive"] }
serde_json = "=1.0.154"
evdev = "=0.13.2"
iced = { version = "=0.14.0", default-features = false, features = ["tiny-skia", "x11", "thread-pool"] }
tokio = { version = "=1.54.1", features = ["rt"] }
tungstenite = "=0.30.0"
vigem-client = "=0.1.4"
