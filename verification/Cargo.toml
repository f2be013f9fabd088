[package]
name = "rubyshd"
version = "0.1.0"
edition = "2021"
publish = false

[dependencies]
cached = "0.55"
chrono = "=0.4.45"
env_logger = "=0.11.11"
gemtext = "=0.2.1"
gray_matter = "=0.2.9"
handlebars = "=6.4.4"
handlebars-chrono = "=0.2.1"
httparse = "=1.10.1"
log = "=0.4.34"
markdown = "=1.0.0"
mime_guess = "=2.0.5"
pulldown-cmark = "=0.12.2"
rand = "=0.8.8"
rustls-pemfile = "=2.2.0"
serde = { version = "=1.0.229", features = ["derive"] }
serde_json = "=1.0.154"
serde_with = "=3.24.0"
tokio = { version = "=1.54.1", features = ["full"] }
tokio-rustls = "=0.26.6"
url = "=2.5.8"
walkdir = "=2.5.0"
x509-parser = "=0.18.1"
