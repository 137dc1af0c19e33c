[package]
name = "aerogel"
version = "0.1.0"
edition = "2021"
publish = false

[dependencies]
pulldown-cmark = { version = "0.9", default-features = false }
syntect = { version = "5", default-features = false, features = ["default-fancy"] }
base64 = "0.22"
mime_guess = "2"
rusttype = "0.9"
wayland-client = "0.31"
wayland-protocols-wlr = { version = "0.2", features = ["client"] }
memmap2 = "0.9"
tempfile = "3"
serde = { version = "1", features = ["derive"] }
serde_json = "1"
toml = "0.8"
anyhow = "1"
async-stream = "0.3"
byteorder = "1"
chrono = "0.4"
clap = { version = "4", features = ["derive"] }
colored = "2"
dotenv = "0.15"
futures-util = "0.3"
notify = "6"
reqwest = { version = "0.12", default-features = false, features = ["json", "multipart", "stream", "rustls-tls"] }
tokio = { version = "1", features = ["full"] }
tokio-stream = "0.1"
