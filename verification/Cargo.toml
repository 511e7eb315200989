[package]
name = "biyard_kit"
version = "0.1.0"
edition = "2021"
publish = false

[dependencies]
serde_json = "1"
convert_case = "0.6"
serde = { version = "1", features = ["derive"] }
syn = { version = "2", features = ["full", "extra-traits"] }
quote = "1"
proc-macro2 = "1"
axum = "0.8"
tower = { version = "0.5", features = ["util"] }
tokio = { version = "1", features = ["sync"] }
chrono = { version = "0.4", default-features = false, features = ["clock"] }
reqwest = { version = "0.12", default-features = false, features = ["json"] }
inventory = "0.3"
