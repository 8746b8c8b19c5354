[package]
name = "fontconfig_parser"
version = "0.1.0"
edition = "2021"
publish = false

[dependencies]
quick-xml = "0.22"
roxmltree = "0.14"
serde = { version = "1", features = ["derive"] }
strum = "0.20"
thiserror = "1"
