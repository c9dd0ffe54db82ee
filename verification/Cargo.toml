[package]
name = "aspeak"
version = "0.1.0"
edition = "2021"
publish = false

[dependencies]
reqwest = { version = "*", default-features = false }
clap = { version = "*", features = ["derive"] }
serde = { version = "*", features = ["derive"] }
strum = { version = "*", features = ["derive"] }
thiserror = "*"
color-eyre = "*"
url = "*"
xml-rs = "*"
tokio-tungstenite = "*"
pyo3 = "*"
