[package]
name = "dissimkl"
version = "0.1.0"
edition = "2021"
publish = false

[dependencies]
anyhow = "=1.0.104"
chrono = { version = "=0.4.45", features = ["serde"] }
configparser = "=3.3.0"
dirs = "=7.0.0"
discord-rich-presence = "=1.1.0"
ksni = { version = "=0.3.7", features = ["blocking"] }
lru = "=0.19.0"
open = "=5.4.5"
scraper = "=0.29.0"
serde = { version = "=1.0.229", features = ["derive"] }
serde_json = "=1.0.154"
tracing = "=0.1.44"
tracing-subscriber = { version = "=0.3.23", features = ["env-filter"] }
tray-icon = "=0.26.1"
ureq = { version = "=2.12.1", features = ["json"] }
winit = "=0.30.13"
