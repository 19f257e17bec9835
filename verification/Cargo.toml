[package]
name = "tokend"
version = "0.1.0"
edition = "2021"
publish = false

[dependencies]
dashmap = "6.1"
minijinja = "2.24"
minijinja-contrib = { version = "2.24", features = ["pycompat"] }
serde_json = "1"
tokenizers = { version = "0.22", default-features = false, features = ["fancy-regex"] }
home = "0.5"
urlencoding = "2"
serde = { version = "1", features = ["derive"] }
serde_yaml = "0.9"
hf-hub = { version = "0.4", default-features = false, features = ["ureq"] }
anyhow = "1"
thiserror = "2"
clap = { version = "4", features = ["derive"] }
tokio = { version = "1", features = ["full"] }
tokio-stream = "0.1"
axum = "0.8"
tonic = "0.14"
envoy-types = "0.7"
prometheus = { version = "0.14", default-features = false }
tracing = "0.1"
tracing-subscriber = { version = "0.3", features = ["env-filter"] }
