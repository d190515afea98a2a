[package]
name = "fog_of_war"
version = "0.1.0"
edition = "2021"
publish = false

[dependencies]
rand = "=0.8.8"
serde = { version = "=1.0.229", features = ["derive"] }
serde_json = "=1.0.154"
futures = "=0.3.34"
tokio = { version = "=1.54.1", features = ["sync", "time"] }
axum = { version = "=0.7.9", features = ["ws"] }
tower-http = { version = "=0.5.2", features = ["fs"] }
shuttle-axum = { version = "=0.57.0", default-features = false, features = ["axum-0-7"] }
shuttle-runtime = "=0.57.0"
