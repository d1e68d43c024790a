[package]
name = "liveserve_rs"
version = "0.1.0"
edition = "2021"
publish = false

[dependencies]
axum = { version = "0.6", features = ["ws"] }
clap = { version = "4", features = ["derive"] }
futures-util = "0.3"
mime_guess = "2"
notify = "6"
tokio = { version = "1", features = ["full"] }
tracing = "0.1"
tracing-subscriber = { version = "0.3", features = ["env-filter"] }
