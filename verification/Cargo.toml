[package]
name = "frame_viewer"
version = "0.1.0"
edition = "2021"
publish = false

[dependencies]
lru = "=0.12.5"
url = "=2.5.8"
urlencoding = "=2.1.3"
anyhow = "1"
config = { version = "0.13", default-features = false, features = ["toml"] }
futures-util = { version = "0.3", default-features = false, features = ["sink", "std"] }
gstreamer = "0.21"
gstreamer-app = "0.21"
gstreamer-video = "0.21"
image = { version = "0.24", default-features = false, features = ["jpeg", "png"] }
rand = "0.8"
reqwest = { version = "0.11", default-features = false, features = ["json", "rustls-tls"] }
sdl2 = { version = "0.36", features = ["ttf"] }
serde = { version = "1", features = ["derive"] }
serde_json = "1"
tokio = { version = "1", features = ["fs", "io-util", "macros", "rt-multi-thread", "sync", "time"] }
tokio-tungstenite = { version = "0.21", features = ["rustls-tls-webpki-roots"] }
tracing = "0.1"
tracing-subscriber = { version = "0.3", features = ["env-filter"] }
walkdir = "2"
