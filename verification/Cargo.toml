[package]
name = "conversations_zine"
version = "0.2.0"
edition = "2021"
publish = false

[dependencies]
pulldown-cmark = { version = "0.12", default-features = false }
serde = { version = "1", features = ["derive"] }
serde_json = "1"
clap = { version = "4", features = ["derive"] }
