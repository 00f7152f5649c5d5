[package]
name = "extraspace"
version = "0.1.0"
edition = "2021"
rust-version = "1.85"
publish = false

[dependencies]
anyhow = "=1.0.104"
bytes = "=1.12.1"
futures-util = "=0.3.34"
gstreamer = "0.23"
gstreamer-allocators = "0.23"
gstreamer-app = "0.23"
gstreamer-video = "0.23"
gtk4 = "0.9"
libadwaita = { version = "0.7", features = ["v1_5"] }
pipewire = "=0.9.2"
serde = { version = "=1.0.229", features = ["derive"] }
serde_json = "=1.0.154"
thiserror = "=2.0.21"
tokio = { version = "=1.54.1", features = ["full"] }
tracing = "0.1"
tracing-subscriber = { version = "0.3", features = ["env-filter"] }
zbus = { version = "=5.19.0", default-features = false, features = ["tokio"] }
zvariant = "=5.15.1"
