[package]
name = "pfg_rs"
version = "0.1.0"
edition = "2021"
publish = false

[dependencies]
rss = "2"
xml-rs = "0.8"
serde = { version = "1", features = ["derive"] }
toml = "0.8"
