[package]
name = "lighthouse_api"
version = "0.1.0"
edition = "2021"
publish = false

[dependencies]
reqwest = { version = "0.12", default-features = false, features = ["json"] }
serde = { version = "1", features = ["derive"] }
slog = "2"
tokio = { version = "1", features = ["rt-multi-thread", "macros"] }
warp = { version = "0.3", default-features = false }
