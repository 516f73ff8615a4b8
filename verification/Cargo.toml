[package]
name = "ocr_translate"
version = "0.1.0"
edition = "2021"
publish = false

[dependencies]
ego-tree = "=0.11.0"
futures-util = "=0.3.34"
rand = "=0.10.3"
reqwest = { version = "=0.13.5", default-features = false }
scraper = "=0.27.0"
serde = { version = "=1.0.229", features = ["derive"] }
serde_json = "=1.0.151"
tesseract = "=0.15.2"
tokio = { version = "=1.53.2", features = ["rt-multi-thread", "macros"] }
zbus = "=5.19.0"
