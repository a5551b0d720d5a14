[package]
name = "itmr-dragonfable-launcher"
version = "0.1.0"
edition = "2021"
publish = false

[dependencies]
anyhow = "1"
arboard = { version = "3", default-features = false }
async-task = "4"
dirs = "6"
egui = "0.33"
egui-wgpu = "0.33"
egui-winit = { version = "0.33", default-features = false, features = ["x11"] }
fontdb = "0.23"
futures = "0.3"
reqwest = { version = "0.12", default-features = false, features = ["json"] }
semver = "1"
serde = { version = "1", features = ["derive"] }
serde_json = "1"
sys-locale = "0.3"
tokio = { version = "1", features = ["rt-multi-thread"] }
toml = "0.9"
tracing = "0.1"
tracing-appender = "0.2"
tracing-subscriber = { version = "0.3", features = ["env-filter"] }
url = "2"
webbrowser = "1"
wgpu = { version = "27", default-features = false, features = ["gles", "std"] }
winit = { version = "0.30", default-features = false, features = ["x11", "rwh_06"] }
