[package]
name = "privacykit"
version = "0.1.0"
edition = "2021"
publish = false

[dependencies]
anyhow = "1"
clap = { version = "4", features = ["derive"] }
colored = "2"
dirs = "5"
reqwest = { version = "0.12", default-features = false, features = ["rustls-tls"] }
rusqlite = { version = "0.31", features = ["bundled"] }
scraper = "0.20"
sha1 = "0.10"
tokio = { version = "1", features = ["macros", "rt-multi-thread"] }
