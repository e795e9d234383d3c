[package]
name = "pcbfapi"
version = "0.1.0"
edition = "2021"
publish = false

[dependencies]
pulldown-cmark = "=0.13.6"
pulldown-cmark-to-cmark = "=23.0.0"
image = { version = "=0.25.10", default-features = false, features = ["png"] }
serde = { version = "=1.0.229", features = ["derive"] }
serde_json = "=1.0.154"
schemars = "=1.2.3"
axum = "=0.8.9"
tokio = { version = "=1.54.1", features = ["full"] }
csv = "=1.4.0"
lopdf = "=0.46.0"
chrono = "=0.4.45"
anyhow = "=1.0.104"
dirs = "=7.0.0"
typst = "=0.15.1"
typst-pdf = "=0.15.1"
fontdb = "*"
include_dir = "*"
