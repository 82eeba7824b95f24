[package]
name = "tms"
version = "0.2.0"
edition = "2021"
publish = false

[dependencies]
clap = { version = "4", features = ["derive"] }
log = "0.4"
prettytable-rs = "0.10"
quick-xml = { version = "0.31", features = ["serialize"] }
serde = { version = "1", features = ["derive"] }
simplelog = "0.12"
toml = "0.8"
xml-doc = "0.2"
