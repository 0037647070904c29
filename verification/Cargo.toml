[package]
name = "movie_metadata_capture"
version = "0.1.0"
edition = "2021"
publish = false

[dependencies]
regex = "1"
url = "2"
serde_json = "1"
sxd-document = "0.3"
sxd-xpath = "0.4"
sxd_html = "0.1"
serde = { version = "1", features = ["derive"] }
tokio = { version = "1", features = ["rt-multi-thread", "macros", "sync"] }
reqwest = { version = "0.11", default-features = false, features = ["cookies", "rustls-tls"] }
clap = { version = "4", features = ["derive"] }
config = { version = "0.13", default-features = false, features = ["toml"] }
glob = "0.3"
chrono = "0.4"
rand = "0.8"
futures = "0.3"
walkdir = "2"
quick-xml = { version = "0.31", features = ["serialize"] }
xmlem = "*"
image = { version = "0.24", default-features = false, features = ["jpeg", "png"] }
dlib-face-recognition = "*"
