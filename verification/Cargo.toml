[package]
name = "openlogi_gui"
version = "0.1.0"
edition = "2021"
publish = false

[dependencies]
anyhow = "=1.0.104"
clap = { version = "=4.6.7", features = ["derive"] }
image = { version = "=0.25.10", default-features = false, features = ["png"] }
objc = "=0.2.7"
tokio = { version = "=1.54.1", features = ["sync"] }
